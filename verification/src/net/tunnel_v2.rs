//! Tunnel V2: UDP tunneling between clients whose IDs are allocated over HTTP.
//!
//! A UDP packet starts with the sender ID and the receiver ID, 16 bits each, big-endian. A packet
//! of 50 bytes with both IDs 0 is a ping. Every other packet is forwarded unchanged to the
//! receiver, if both clients are known and the sender sends from its own address.
//!
//! HTTP requests: `/status` reports the slots, `/request?clients=N` allocates 2 to 8 client IDs,
//! and `/maintenance/<password>` enables maintenance mode.

use vstd::prelude::*;

use crate::addr::{is_invalid_source, spec_is_invalid_source, IpAddr, SocketAddr};
use crate::announce::{heartbeat_url, is_heartbeat_url};
use crate::clock::MonotonicClock;
use crate::http::{plain, Response};
use crate::net::client_ids::{
    law_freed_ids_are_not_outstanding, law_outstanding_ids_are_distinct, lemma_pick,
    ClientIdAllocator, IdSource,
};
use crate::net::constants::CLIENT_TIMEOUT;
use crate::net::receive_loop::{ReceiveAction, ReceiveEvent};
use crate::net::rate_limiter::{
    limit_reached_at, requested_both, Bucket, IpRateLimiterManager, LimiterPool, MemoryOrdering,
    RateLimiter, RateLimiterConfig,
};
use crate::net::tunnel_client::{
    is_expired_list, lemma_states_dom, lemma_states_insert, lemma_states_remove, listed_before,
    states, survivors, ClientState, TunnelClient,
};
use crate::packet::{
    be_i16, copy_of, first_bytes, read_be_i16, Datagram, PING_LENGTH, PING_REPLY_LENGTH,
};
use crate::table::{lemma_listing_len, lists, Table};
use crate::text::{
    chars_of, decimal, has_prefix, parse_unsigned, parsed_unsigned, push_decimal,
    push_signed_decimal, remove_char, same_chars, same_text, signed_decimal, split, split_chars,
    starts_with, string_of, tail_of, without,
};

verus! {

/// The most HTTP connections served at once.
pub const MAX_CONCURRENT_HTTP: usize = 100;

/// The most packets processed at once.
pub const MAX_CONCURRENT_PROCESSING: usize = 2000;

/// The longest packet that is accepted.
pub const MAX_PACKET_SIZE: usize = 1024;

/// The shortest packet that is accepted.
pub const MIN_PACKET_SIZE: usize = 4;

/// Pings that one address may send in an interval.
pub const DEFAULT_MAX_PINGS_PER_IP: usize = 20;

/// Pings that all addresses together may send in an interval.
pub const DEFAULT_MAX_PINGS_GLOBAL: usize = 5000;

/// Requests that one address may send in an interval.
pub const DEFAULT_MAX_REQUESTS_PER_IP: usize = 4;

/// Requests that all addresses together may send in an interval.
pub const DEFAULT_MAX_REQUESTS_GLOBAL: usize = 1000;

/// Length of the interval in milliseconds.
pub const DEFAULT_RESET_INTERVAL_MS: u64 = 60_000;

/// How many IDs are tried to find a free one.
pub const MAX_ID_ALLOCATION_ATTEMPTS: usize = 50;

/// Milliseconds to wait for a packet before looking for other work.
pub const UDP_OPERATION_TIMEOUT_MS: u64 = 100;

/// Milliseconds between two reports of the counters.
pub const METRICS_INTERVAL_MS: u64 = 60_000;

/// Configuration of the service.
#[derive(Debug, Clone)]
pub struct TunnelV2Config {
    /// Port of the tunnel, for UDP and HTTP.
    pub port: u16,
    /// The most clients.
    pub max_clients: usize,
    /// The most clients of one address.
    pub ip_limit: usize,
    /// Name of the server.
    pub name: String,
    /// Whether the master server is not told of this one.
    pub no_master_announce: bool,
    /// Password for the master server.
    pub master_password: String,
    /// Password for maintenance requests.
    pub maintenance_password: String,
    /// Address of the master server.
    pub master_server_url: String,
    /// Pings that one address may send in an interval.
    pub max_pings_per_ip: usize,
    /// Pings that all addresses together may send in an interval.
    pub max_pings_global: usize,
    /// Requests that one address may send in an interval.
    pub max_requests_per_ip: usize,
    /// Requests that all addresses together may send in an interval.
    pub max_requests_global: usize,
    /// Length of the interval in milliseconds.
    pub reset_interval_ms: u64,
    /// The most HTTP connections served at once.
    pub max_concurrent_http: usize,
    /// The most packets processed at once.
    pub max_concurrent_processing: usize,
}

/// What a configuration says.
#[verifier::ext_equal]
pub struct V2Settings {
    pub port: u16,
    pub max_clients: usize,
    pub ip_limit: usize,
    pub name: Seq<char>,
    pub no_master_announce: bool,
    pub master_password: Seq<char>,
    pub maintenance_password: Seq<char>,
    pub master_server_url: Seq<char>,
    pub max_pings_per_ip: usize,
    pub max_pings_global: usize,
    pub max_requests_per_ip: usize,
    pub max_requests_global: usize,
    pub reset_interval_ms: u64,
    pub max_concurrent_http: usize,
    pub max_concurrent_processing: usize,
}

impl View for TunnelV2Config {
    type V = V2Settings;

    open spec fn view(&self) -> V2Settings {
        V2Settings {
            port: self.port,
            max_clients: self.max_clients,
            ip_limit: self.ip_limit,
            name: self.name@,
            no_master_announce: self.no_master_announce,
            master_password: self.master_password@,
            maintenance_password: self.maintenance_password@,
            master_server_url: self.master_server_url@,
            max_pings_per_ip: self.max_pings_per_ip,
            max_pings_global: self.max_pings_global,
            max_requests_per_ip: self.max_requests_per_ip,
            max_requests_global: self.max_requests_global,
            reset_interval_ms: self.reset_interval_ms,
            max_concurrent_http: self.max_concurrent_http,
            max_concurrent_processing: self.max_concurrent_processing,
        }
    }
}

impl V2Settings {
    /// The settings that apply when nothing else is asked for.
    pub open spec fn defaults() -> V2Settings {
        V2Settings {
            port: 50000,
            max_clients: 200,
            ip_limit: 4,
            name: "Unnamed server"@,
            no_master_announce: false,
            master_password: Seq::empty(),
            maintenance_password: "KUYn3b2z"@,
            master_server_url: "http://cncnet.org/master-announce"@,
            max_pings_per_ip: DEFAULT_MAX_PINGS_PER_IP,
            max_pings_global: DEFAULT_MAX_PINGS_GLOBAL,
            max_requests_per_ip: DEFAULT_MAX_REQUESTS_PER_IP,
            max_requests_global: DEFAULT_MAX_REQUESTS_GLOBAL,
            reset_interval_ms: DEFAULT_RESET_INTERVAL_MS,
            max_concurrent_http: MAX_CONCURRENT_HTTP,
            max_concurrent_processing: MAX_CONCURRENT_PROCESSING,
        }
    }

    /// The settings with a port that needs no privileges, room for two clients and for one client
    /// of an address, and a name without semicolons.
    pub open spec fn normalized(self) -> V2Settings {
        V2Settings {
            port: if self.port <= 1024 {
                50000
            } else {
                self.port
            },
            max_clients: if self.max_clients < 2 {
                200
            } else {
                self.max_clients
            },
            ip_limit: if self.ip_limit < 1 {
                4
            } else {
                self.ip_limit
            },
            name: if self.name.len() == 0 {
                "Unnamed server"@
            } else {
                without(self.name, ';')
            },
            ..self
        }
    }
}

impl Default for TunnelV2Config {
    /// The settings that apply when nothing else is asked for.
    fn default() -> (config: Self)
        ensures
            config@ == V2Settings::defaults(),
    {
        let config = TunnelV2Config {
            port: 50000,
            max_clients: 200,
            ip_limit: 4,
            name: "Unnamed server".to_owned(),
            no_master_announce: false,
            master_password: String::new(),
            maintenance_password: "KUYn3b2z".to_owned(),
            master_server_url: "http://cncnet.org/master-announce".to_owned(),
            max_pings_per_ip: DEFAULT_MAX_PINGS_PER_IP,
            max_pings_global: DEFAULT_MAX_PINGS_GLOBAL,
            max_requests_per_ip: DEFAULT_MAX_REQUESTS_PER_IP,
            max_requests_global: DEFAULT_MAX_REQUESTS_GLOBAL,
            reset_interval_ms: DEFAULT_RESET_INTERVAL_MS,
            max_concurrent_http: MAX_CONCURRENT_HTTP,
            max_concurrent_processing: MAX_CONCURRENT_PROCESSING,
        };
        config
    }
}

impl TunnelV2Config {
    /// Brings the settings into the accepted range.
    pub fn normalize(self) -> (config: Self)
        ensures
            config@ == self@.normalized(),
    {
        let mut config = self;
        if config.port <= 1024 {
            config.port = 50000;
        }
        if config.max_clients < 2 {
            config.max_clients = 200;
        }
        if config.ip_limit < 1 {
            config.ip_limit = 4;
        }
        if config.name.as_str().is_empty() {
            config.name = "Unnamed server".to_owned();
        } else {
            config.name = string_of(&remove_char(&chars_of(config.name.as_str()), ';'));
        }
        config
    }
}

/// Settings that have been brought into the accepted range stay as they are, unless the name was
/// made of nothing but semicolons: it then becomes the default name the second time.
pub proof fn law_normalization_is_idempotent(settings: V2Settings)
    requires
        settings.name.len() > 0 ==> without(settings.name, ';').len() > 0,
    ensures
        settings.normalized().normalized() == settings.normalized(),
{
    crate::text::lemma_default_name_is_kept();
    crate::text::lemma_without_is_idempotent(settings.name, ';');
}

/// Counters of the service at one moment.
#[derive(Debug, Clone, Copy)]
pub struct MetricsSnapshot {
    pub udp_packets_received: u64,
    pub udp_packets_processed: u64,
    pub udp_packets_dropped: u64,
    pub packets_tunneled: u64,
    pub http_requests_received: u64,
    pub http_requests_processed: u64,
    pub http_requests_rate_limited: u64,
    pub game_slots_allocated: u64,
    pub active_connections: usize,
}

impl MetricsSnapshot {
    /// Nothing has been counted.
    pub open spec fn zero() -> MetricsSnapshot {
        MetricsSnapshot {
            udp_packets_received: 0,
            udp_packets_processed: 0,
            udp_packets_dropped: 0,
            packets_tunneled: 0,
            http_requests_received: 0,
            http_requests_processed: 0,
            http_requests_rate_limited: 0,
            game_slots_allocated: 0,
            active_connections: 0,
        }
    }

    pub open spec fn with_received(self) -> MetricsSnapshot {
        MetricsSnapshot {
            udp_packets_received: self.udp_packets_received.wrapping_add(1),
            ..self
        }
    }

    pub open spec fn with_processed(self) -> MetricsSnapshot {
        MetricsSnapshot {
            udp_packets_processed: self.udp_packets_processed.wrapping_add(1),
            ..self
        }
    }

    pub open spec fn with_dropped(self) -> MetricsSnapshot {
        MetricsSnapshot { udp_packets_dropped: self.udp_packets_dropped.wrapping_add(1), ..self }
    }

    pub open spec fn with_tunneled(self) -> MetricsSnapshot {
        MetricsSnapshot { packets_tunneled: self.packets_tunneled.wrapping_add(1), ..self }
    }

    pub open spec fn with_http_received(self) -> MetricsSnapshot {
        MetricsSnapshot {
            http_requests_received: self.http_requests_received.wrapping_add(1),
            ..self
        }
    }

    pub open spec fn with_http_processed(self) -> MetricsSnapshot {
        MetricsSnapshot {
            http_requests_processed: self.http_requests_processed.wrapping_add(1),
            ..self
        }
    }

    pub open spec fn with_http_rate_limited(self) -> MetricsSnapshot {
        MetricsSnapshot {
            http_requests_rate_limited: self.http_requests_rate_limited.wrapping_add(1),
            ..self
        }
    }

    pub open spec fn with_game_slots(self, count: u64) -> MetricsSnapshot {
        MetricsSnapshot {
            game_slots_allocated: self.game_slots_allocated.wrapping_add(count),
            ..self
        }
    }

    pub open spec fn with_connections(self, count: usize) -> MetricsSnapshot {
        MetricsSnapshot { active_connections: self.active_connections.wrapping_add(count), ..self }
    }

    pub open spec fn without_connections(self, count: usize) -> MetricsSnapshot {
        MetricsSnapshot { active_connections: self.active_connections.wrapping_sub(count), ..self }
    }
}

/// Counters of the service. They start over when they have reached their largest value.
#[derive(Debug)]
pub struct ServiceMetrics {
    udp_packets_received: u64,
    udp_packets_processed: u64,
    udp_packets_dropped: u64,
    packets_tunneled: u64,
    http_requests_received: u64,
    http_requests_processed: u64,
    http_requests_rate_limited: u64,
    game_slots_allocated: u64,
    active_connections: usize,
}

impl View for ServiceMetrics {
    type V = MetricsSnapshot;

    closed spec fn view(&self) -> MetricsSnapshot {
        MetricsSnapshot {
            udp_packets_received: self.udp_packets_received,
            udp_packets_processed: self.udp_packets_processed,
            udp_packets_dropped: self.udp_packets_dropped,
            packets_tunneled: self.packets_tunneled,
            http_requests_received: self.http_requests_received,
            http_requests_processed: self.http_requests_processed,
            http_requests_rate_limited: self.http_requests_rate_limited,
            game_slots_allocated: self.game_slots_allocated,
            active_connections: self.active_connections,
        }
    }
}

impl ServiceMetrics {
    /// Nothing has been counted.
    pub fn new() -> (metrics: Self)
        ensures
            metrics@ == MetricsSnapshot::zero(),
    {
        ServiceMetrics {
            udp_packets_received: 0,
            udp_packets_processed: 0,
            udp_packets_dropped: 0,
            packets_tunneled: 0,
            http_requests_received: 0,
            http_requests_processed: 0,
            http_requests_rate_limited: 0,
            game_slots_allocated: 0,
            active_connections: 0,
        }
    }

    /// Counts a received packet.
    pub fn inc_udp_received(&mut self)
        ensures
            final(self)@ == old(self)@.with_received(),
    {
        self.udp_packets_received = self.udp_packets_received.wrapping_add(1);
    }

    /// Counts a processed packet.
    pub fn inc_udp_processed(&mut self)
        ensures
            final(self)@ == old(self)@.with_processed(),
    {
        self.udp_packets_processed = self.udp_packets_processed.wrapping_add(1);
    }

    /// Counts a dropped packet.
    pub fn inc_udp_dropped(&mut self)
        ensures
            final(self)@ == old(self)@.with_dropped(),
    {
        self.udp_packets_dropped = self.udp_packets_dropped.wrapping_add(1);
    }

    /// Counts a forwarded packet.
    pub fn inc_tunneled(&mut self)
        ensures
            final(self)@ == old(self)@.with_tunneled(),
    {
        self.packets_tunneled = self.packets_tunneled.wrapping_add(1);
    }

    /// Counts a received HTTP request.
    pub fn inc_http_received(&mut self)
        ensures
            final(self)@ == old(self)@.with_http_received(),
    {
        self.http_requests_received = self.http_requests_received.wrapping_add(1);
    }

    /// Counts a processed HTTP request.
    pub fn inc_http_processed(&mut self)
        ensures
            final(self)@ == old(self)@.with_http_processed(),
    {
        self.http_requests_processed = self.http_requests_processed.wrapping_add(1);
    }

    /// Counts an HTTP request over the limit.
    pub fn inc_http_rate_limited(&mut self)
        ensures
            final(self)@ == old(self)@.with_http_rate_limited(),
    {
        self.http_requests_rate_limited = self.http_requests_rate_limited.wrapping_add(1);
    }

    /// Counts allocated game slots.
    pub fn add_game_slots(&mut self, count: u64)
        ensures
            final(self)@ == old(self)@.with_game_slots(count),
    {
        self.game_slots_allocated = self.game_slots_allocated.wrapping_add(count);
    }

    /// Counts new connections.
    pub fn add_active_connections(&mut self, count: usize)
        ensures
            final(self)@ == old(self)@.with_connections(count),
    {
        self.active_connections = self.active_connections.wrapping_add(count);
    }

    /// Counts ended connections.
    pub fn sub_active_connections(&mut self, count: usize)
        ensures
            final(self)@ == old(self)@.without_connections(count),
    {
        self.active_connections = self.active_connections.wrapping_sub(count);
    }

    /// Connections now.
    pub fn get_active_connections(&self) -> (n: usize)
        ensures
            n == self@.active_connections,
    {
        self.active_connections
    }

    /// All counters at this moment.
    pub fn snapshot(&self) -> (snapshot: MetricsSnapshot)
        ensures
            snapshot == self@,
    {
        MetricsSnapshot {
            udp_packets_received: self.udp_packets_received,
            udp_packets_processed: self.udp_packets_processed,
            udp_packets_dropped: self.udp_packets_dropped,
            packets_tunneled: self.packets_tunneled,
            http_requests_received: self.http_requests_received,
            http_requests_processed: self.http_requests_processed,
            http_requests_rate_limited: self.http_requests_rate_limited,
            game_slots_allocated: self.game_slots_allocated,
            active_connections: self.active_connections,
        }
    }
}

/// Connections that are counted and then ended leave the count as it was.
pub proof fn law_connections_balance(metrics: MetricsSnapshot, count: usize)
    ensures
        metrics.with_connections(count).without_connections(count) == metrics,
{
}

/// State of the service.
pub struct V2State {
    pub settings: V2Settings,
    /// Ping limits of each address.
    pub pings: LimiterPool,
    /// Ping limit of all addresses together.
    pub shared_pings: Bucket,
    /// Request limits of each address.
    pub requests: LimiterPool,
    /// Request limit of all addresses together.
    pub shared_requests: Bucket,
    pub maintenance: bool,
    pub counters: MetricsSnapshot,
    pub ids: IdSource,
    /// The clock that times are read from.
    pub clock: MonotonicClock,
}

/// A limit of `max` tokens that is restored every `interval_ms` milliseconds.
pub open spec fn limit_config(max: usize, interval_ms: u64) -> RateLimiterConfig {
    RateLimiterConfig {
        max_tokens: max as u32,
        refill_rate: max as u32,
        refill_interval_ms: interval_ms,
        ordering: MemoryOrdering::Relaxed,
    }
}

impl V2State {
    /// The state when the service starts, when `clock` reads `now`.
    pub open spec fn initial(settings: V2Settings, clock: MonotonicClock, now: u64) -> V2State {
        let interval = settings.reset_interval_ms;
        V2State {
            settings,
            pings: LimiterPool::fresh(limit_config(settings.max_pings_per_ip, interval), clock),
            shared_pings: Bucket::full(
                limit_config(settings.max_pings_global, interval),
                clock,
                now,
            ),
            requests: LimiterPool::fresh(
                limit_config(settings.max_requests_per_ip, interval),
                clock,
            ),
            shared_requests: Bucket::full(
                limit_config(settings.max_requests_global, interval),
                clock,
                now,
            ),
            maintenance: false,
            counters: MetricsSnapshot::zero(),
            ids: IdSource::fresh(),
            clock,
        }
    }

    pub open spec fn wf(self) -> bool {
        &&& self.pings.wf()
        &&& self.pings.clock == self.clock
        &&& self.shared_pings.wf()
        &&& self.shared_pings.clock == self.clock
        &&& self.requests.wf()
        &&& self.requests.clock == self.clock
        &&& self.shared_requests.wf()
        &&& self.shared_requests.clock == self.clock
        &&& self.ids.wf()
    }

    /// Each address may send at least one ping.
    pub open spec fn takes_pings(self) -> bool {
        self.pings.config.valid()
    }

    /// Each address may send at least one request.
    pub open spec fn takes_requests(self) -> bool {
        self.requests.config.valid()
    }

    pub open spec fn count(self, counters: MetricsSnapshot) -> V2State {
        V2State { counters, ..self }
    }
}

/// The sender ID and the receiver ID of a packet.
pub open spec fn packet_ids(data: Seq<u8>) -> (i16, i16) {
    (be_i16(data[0], data[1]), be_i16(data[2], data[3]))
}

/// A packet that is worth looking at: not from a client to itself, and not from an impossible
/// address.
pub open spec fn valid_packet(sender: i16, receiver: i16, addr: SocketAddr) -> bool {
    !(sender == receiver && sender != 0) && !spec_is_invalid_source(addr)
}

/// Whether a packet of `sender` from `addr` is taken as its own: the client is known, and has
/// either been heard from that address or not been heard at all.
pub open spec fn owns(clients: Map<i16, ClientState>, sender: i16, addr: SocketAddr) -> bool {
    clients.contains_key(sender) && (clients[sender].remote_ep is None || clients[sender].remote_ep
        == Some(addr))
}

/// The clients after a packet of `sender` from `addr`.
pub open spec fn after_packet(
    clients: Map<i16, ClientState>,
    sender: i16,
    addr: SocketAddr,
    now: u64,
) -> Map<i16, ClientState> {
    clients.insert(
        sender,
        ClientState { remote_ep: Some(addr), ..clients[sender] }.heard(now),
    )
}

/// Where a packet for `receiver` that came from `addr` goes: to the address of the receiver, but
/// never back to where it came from.
pub open spec fn forward_to(
    clients: Map<i16, ClientState>,
    receiver: i16,
    addr: SocketAddr,
) -> Option<SocketAddr> {
    if clients.contains_key(receiver) && clients[receiver].remote_ep is Some
        && clients[receiver].remote_ep != Some(addr) {
        clients[receiver].remote_ep
    } else {
        None
    }
}

/// What a packet leads to when it is not a ping: the clients afterwards, the counters
/// afterwards, and where the packet goes.
pub open spec fn tunnel_step(
    clients: Map<i16, ClientState>,
    counters: MetricsSnapshot,
    sender: i16,
    receiver: i16,
    addr: SocketAddr,
    now: u64,
) -> (Map<i16, ClientState>, MetricsSnapshot, Option<SocketAddr>) {
    if owns(clients, sender, addr) {
        let after = after_packet(clients, sender, addr, now);
        (after, counters.with_processed(), forward_to(after, receiver, addr))
    } else if clients.contains_key(sender) {
        (clients, counters, None)
    } else {
        (clients, counters.with_processed(), None)
    }
}

/// What the receive loop does next, and the counters afterwards.
pub open spec fn receive_step(
    counters: MetricsSnapshot,
    event: ReceiveEvent,
) -> (ReceiveAction, MetricsSnapshot) {
    match event {
        ReceiveEvent::Shutdown => (ReceiveAction::Stop, counters),
        ReceiveEvent::Packet(size) => if MIN_PACKET_SIZE <= size <= MAX_PACKET_SIZE {
            (ReceiveAction::AskPermit, counters.with_received())
        } else {
            (ReceiveAction::Wait, counters.with_received().with_dropped())
        },
        ReceiveEvent::Permit(free) => if free {
            (ReceiveAction::Process, counters)
        } else {
            (ReceiveAction::Wait, counters.with_dropped())
        },
        ReceiveEvent::Failed => (ReceiveAction::Wait, counters),
        ReceiveEvent::TimedOut => (ReceiveAction::Wait, counters),
    }
}

/// Tunnel V2 service.
pub struct TunnelV2 {
    config: TunnelV2Config,
    ping_manager: IpRateLimiterManager,
    global_ping_limiter: RateLimiter,
    request_manager: IpRateLimiterManager,
    global_request_limiter: RateLimiter,
    maintenance_mode: bool,
    metrics: ServiceMetrics,
    id_allocator: ClientIdAllocator,
    clock: MonotonicClock,
}

impl View for TunnelV2 {
    type V = V2State;

    closed spec fn view(&self) -> V2State {
        V2State {
            settings: self.config@,
            pings: self.ping_manager@,
            shared_pings: self.global_ping_limiter@,
            requests: self.request_manager@,
            shared_requests: self.global_request_limiter@,
            maintenance: self.maintenance_mode,
            counters: self.metrics@,
            ids: self.id_allocator@,
            clock: self.clock,
        }
    }
}

impl TunnelV2 {
    /// A service with the given configuration, brought into the accepted range.
    pub fn with_config(config: TunnelV2Config) -> (service: Self)
        requires
            config.max_pings_global as u32 > 0,
            config.max_requests_global as u32 > 0,
            config.reset_interval_ms > 0,
        ensures
            service@ == V2State::initial(config@.normalized(), service@.clock, 0),
            service@.wf(),
    {
        let config = config.normalize();
        let clock = MonotonicClock::start();
        let interval: u64 = config.reset_interval_ms;
        TunnelV2 {
            ping_manager: IpRateLimiterManager::with_clock(
                Self::limit(config.max_pings_per_ip, interval),
                clock,
            ),
            global_ping_limiter: RateLimiter::with_clock(
                Self::limit(config.max_pings_global, interval),
                clock,
                0,
            ),
            request_manager: IpRateLimiterManager::with_clock(
                Self::limit(config.max_requests_per_ip, interval),
                clock,
            ),
            global_request_limiter: RateLimiter::with_clock(
                Self::limit(config.max_requests_global, interval),
                clock,
                0,
            ),
            config,
            maintenance_mode: false,
            metrics: ServiceMetrics::new(),
            id_allocator: ClientIdAllocator::new(),
            clock,
        }
    }

    fn limit(max: usize, interval_ms: u64) -> (config: RateLimiterConfig)
        ensures
            config == limit_config(max, interval_ms),
    {
        RateLimiterConfig {
            max_tokens: max as u32,
            refill_rate: max as u32,
            refill_interval_ms: interval_ms,
            ordering: MemoryOrdering::Relaxed,
        }
    }

    /// A service with the default configuration but for what is given.
    pub fn new(
        port: u16,
        max_clients: usize,
        name: String,
        no_master_announce: bool,
        master_password: String,
        maintenance_password: String,
        master_server_url: String,
        ip_limit: usize,
    ) -> (service: Self)
        ensures
            service@ == V2State::initial(
                (V2Settings {
                    port,
                    max_clients,
                    name: name@,
                    no_master_announce,
                    master_password: master_password@,
                    maintenance_password: maintenance_password@,
                    master_server_url: master_server_url@,
                    ip_limit,
                    ..V2Settings::defaults()
                }).normalized(),
                service@.clock,
                0,
            ),
            service@.wf(),
            service@.takes_pings(),
            service@.takes_requests(),
    {
        let config = TunnelV2Config::default();
        TunnelV2::with_config(
            TunnelV2Config {
                port,
                max_clients,
                name,
                no_master_announce,
                master_password,
                maintenance_password,
                master_server_url,
                ip_limit,
                ..config
            },
        )
    }

    /// The configuration in force.
    pub fn config(&self) -> (config: &TunnelV2Config)
        ensures
            config@ == self@.settings,
    {
        &self.config
    }

    /// Milliseconds since the service was set up.
    pub fn now_ms(&self) -> (ms: u64)
        ensures
            exists|at: std::time::Instant| ms == #[trigger] self@.clock.reading(at),
    {
        assert(self@.clock == self.clock);
        self.clock.now_ms()
    }

    /// Decides what the receive loop does next.
    pub fn on_event(&mut self, event: ReceiveEvent) -> (action: ReceiveAction)
        ensures
            action == receive_step(old(self)@.counters, event).0,
            final(self)@ == old(self)@.count(receive_step(old(self)@.counters, event).1),
    {
        match event {
            ReceiveEvent::Shutdown => ReceiveAction::Stop,
            ReceiveEvent::Packet(size) => {
                self.metrics.inc_udp_received();
                if size < MIN_PACKET_SIZE || size > MAX_PACKET_SIZE {
                    self.metrics.inc_udp_dropped();
                    ReceiveAction::Wait
                } else {
                    ReceiveAction::AskPermit
                }
            },
            ReceiveEvent::Permit(free) => {
                if free {
                    ReceiveAction::Process
                } else {
                    self.metrics.inc_udp_dropped();
                    ReceiveAction::Wait
                }
            },
            ReceiveEvent::Failed => ReceiveAction::Wait,
            ReceiveEvent::TimedOut => ReceiveAction::Wait,
        }
    }

    /// Whether a packet is worth looking at.
    pub fn is_valid_packet(&self, sender_id: i16, receiver_id: i16, addr: &SocketAddr) -> (valid:
        bool)
        ensures
            valid == valid_packet(sender_id, receiver_id, *addr),
    {
        if sender_id == receiver_id && sender_id != 0 {
            return false;
        }
        !is_invalid_source(addr)
    }

    /// Whether `ip` has sent as many pings as it may, with the clock at `now`. Counts one more.
    pub fn ping_limit_reached_at(&mut self, ip: IpAddr, now: u64) -> (reached: bool)
        requires
            old(self)@.wf(),
            old(self)@.takes_pings(),
        ensures
            final(self)@.wf(),
            final(self)@.takes_pings(),
            requested_both(
                old(self)@.pings,
                final(self)@.pings,
                old(self)@.shared_pings,
                final(self)@.shared_pings,
                ip.spec_key(),
                now,
                reached,
            ),
            final(self)@ == (V2State {
                pings: final(self)@.pings,
                shared_pings: final(self)@.shared_pings,
                ..old(self)@
            }),
    {
        limit_reached_at(&mut self.ping_manager, &mut self.global_ping_limiter, ip, now)
    }

    /// Whether `ip` has sent as many pings as it may. Counts one more.
    pub fn ping_limit_reached(&mut self, ip: IpAddr) -> (reached: bool)
        requires
            old(self)@.wf(),
            old(self)@.takes_pings(),
        ensures
            final(self)@.wf(),
            final(self)@.takes_pings(),
            exists|at: std::time::Instant|
                requested_both(
                    old(self)@.pings,
                    final(self)@.pings,
                    old(self)@.shared_pings,
                    final(self)@.shared_pings,
                    ip.spec_key(),
                    #[trigger] old(self)@.clock.reading(at),
                    reached,
                ),
            final(self)@ == (V2State {
                pings: final(self)@.pings,
                shared_pings: final(self)@.shared_pings,
                ..old(self)@
            }),
    {
        let now: u64 = self.clock.now_ms();
        self.ping_limit_reached_at(ip, now)
    }

    /// Handles a received packet, with the clock at `now`. Comes back with the datagram that is
    /// to be sent: the start of a ping, or the packet itself for its receiver.
    pub fn on_receive_at(
        &mut self,
        data: &[u8],
        remote_addr: SocketAddr,
        mappings: &mut Table<i16, TunnelClient>,
        now: u64,
    ) -> (reply: Option<Datagram>)
        requires
            old(self)@.wf(),
            data@.len() >= MIN_PACKET_SIZE,
            packet_ids(data@) == (0i16, 0i16) && data@.len() == PING_LENGTH && valid_packet(
                0,
                0,
                remote_addr,
            ) ==> old(self)@.takes_pings(),
        ensures
            final(self)@.wf(),
            final(self)@.takes_pings() == old(self)@.takes_pings(),
            ({
                let (sender, receiver) = packet_ids(data@);
                let before = old(self)@;
                let after = final(self)@;
                let clients = states(old(mappings)@);
                if !valid_packet(sender, receiver, remote_addr) {
                    &&& after == before.count(before.counters.with_dropped())
                    &&& states(final(mappings)@) == clients
                    &&& reply is None
                } else if sender == 0 && receiver == 0 && data@.len() == PING_LENGTH {
                    &&& requested_both(
                        before.pings,
                        after.pings,
                        before.shared_pings,
                        after.shared_pings,
                        remote_addr.ip.spec_key(),
                        now,
                        reply is None,
                    )
                    &&& after == (V2State {
                        pings: after.pings,
                        shared_pings: after.shared_pings,
                        ..before
                    }).count(before.counters.with_processed())
                    &&& states(final(mappings)@) == clients
                    &&& reply matches Some(datagram) ==> datagram.payload@ == data@.take(
                        PING_REPLY_LENGTH as int,
                    ) && datagram.to == remote_addr
                } else if sender == 0 && receiver == 0 {
                    &&& after == before.count(before.counters.with_processed())
                    &&& states(final(mappings)@) == clients
                    &&& reply is None
                } else {
                    let (clients_after, counters, to) = tunnel_step(
                        clients,
                        before.counters,
                        sender,
                        receiver,
                        remote_addr,
                        now,
                    );
                    &&& after == before.count(counters)
                    &&& states(final(mappings)@) == clients_after
                    &&& reply is Some == to is Some
                    &&& reply matches Some(datagram) ==> datagram.payload@ == data@ && Some(
                        datagram.to,
                    ) == to
                }
            }),
            data@[0] == 0 && data@[1] == 0 && data@[2] == 0 && data@[3] == 0 ==> (
            reply matches Some(datagram) ==> data@.len() == 50 && datagram.payload@ == data@.take(
                12,
            )),
    {
        let sender_id: i16 = read_be_i16(data[0], data[1]);
        let receiver_id: i16 = read_be_i16(data[2], data[3]);
        if !self.is_valid_packet(sender_id, receiver_id, &remote_addr) {
            self.metrics.inc_udp_dropped();
            return None;
        }
        if sender_id == 0 && receiver_id == 0 {
            let mut reply: Option<Datagram> = None;
            if data.len() == PING_LENGTH && !self.ping_limit_reached_at(remote_addr.ip, now) {
                reply = Some(
                    Datagram { payload: first_bytes(data, PING_REPLY_LENGTH), to: remote_addr },
                );
            }
            self.metrics.inc_udp_processed();
            return reply;
        }
        let mut reply: Option<Datagram> = None;
        if let Some(found) = mappings.get(&sender_id) {
            let mut sender = found;
            proof {
                lemma_states_dom(mappings@);
            }
            match sender.endpoint() {
                None => {
                    sender.set_endpoint(remote_addr);
                },
                Some(endpoint) => {
                    if endpoint != remote_addr {
                        return None;
                    }
                },
            }
            sender.update_last_receive_at(now);
            proof {
                lemma_states_insert(mappings@, sender_id, sender);
            }
            mappings.insert(sender_id, sender);
            proof {
                lemma_states_dom(mappings@);
                assert(states(mappings@) == after_packet(
                    states(old(mappings)@),
                    sender_id,
                    remote_addr,
                    now,
                ));
            }
            if let Some(receiver) = mappings.get(&receiver_id) {
                if let Some(receiver_ep) = receiver.endpoint() {
                    if receiver_ep != remote_addr {
                        reply = Some(Datagram { payload: copy_of(data), to: receiver_ep });
                    }
                }
            }
        } else {
            proof {
                lemma_states_dom(mappings@);
            }
        }
        self.metrics.inc_udp_processed();
        reply
    }

    /// Records that a datagram has been sent to `to` for a packet from `from`, or could not be.
    /// Those that go elsewhere are counted; the others answer pings.
    pub fn on_sent(&mut self, from: &SocketAddr, to: &SocketAddr, sent: bool)
        ensures
            final(self)@ == if sent && *to != *from {
                old(self)@.count(old(self)@.counters.with_tunneled())
            } else {
                old(self)@
            },
    {
        if sent && *to != *from {
            self.metrics.inc_tunneled();
        }
    }
}

/// The value of a `clients` parameter, if this is one.
pub open spec fn clients_value(param: Seq<char>) -> Option<nat> {
    if starts_with(param, "clients="@) {
        parsed_unsigned(param.skip("clients="@.len() as int), usize::MAX as nat)
    } else {
        None
    }
}

/// The last number that is given as `clients`, or 0.
pub open spec fn last_clients_value(params: Seq<Seq<char>>) -> nat
    decreases params.len(),
{
    if params.len() == 0 {
        0
    } else {
        match clients_value(params.last()) {
            Some(n) => n,
            None => last_clients_value(params.drop_last()),
        }
    }
}

/// The number of clients that a query asks for.
pub open spec fn clients_param(query: Seq<char>) -> nat {
    last_clients_value(split(query, '&'))
}

/// Client IDs with commas between them.
pub open spec fn id_list(ids: Seq<i16>) -> Seq<char>
    decreases ids.len(),
{
    if ids.len() == 0 {
        Seq::empty()
    } else if ids.len() == 1 {
        signed_decimal(ids[0] as int)
    } else {
        id_list(ids.drop_last()) + ","@ + signed_decimal(ids.last() as int)
    }
}

/// The IDs that `count` clients get in addition to those in `got`, if there is room for as many,
/// and the source of IDs afterwards. When it fails, what was got is given back.
pub open spec fn allocation(
    source: IdSource,
    used: Set<i16>,
    got: Seq<i16>,
    count: nat,
    room: int,
) -> (Option<Seq<i16>>, IdSource)
    decreases count,
{
    if count == 0 {
        (Some(got), source)
    } else if room <= 0 {
        (None, source.freed_all(got))
    } else {
        let (id, source) = source.pick(used, MAX_ID_ALLOCATION_ATTEMPTS as nat);
        match id {
            None => (None, source.freed_all(got)),
            Some(id) => allocation(
                source,
                used.insert(id),
                got.push(id),
                (count - 1) as nat,
                room - 1,
            ),
        }
    }
}

/// The clients and a new one for each of the IDs, made when `clock` reads `now`.
pub open spec fn with_clients(
    clients: Map<i16, ClientState>,
    ids: Seq<i16>,
    clock: MonotonicClock,
    now: u64,
) -> Map<i16, ClientState> {
    clients.union_prefer_right(
        Map::new(
            |id: i16| ids.contains(id),
            |id: i16| ClientState::fresh(CLIENT_TIMEOUT, clock, now),
        ),
    )
}

/// The status page.
pub open spec fn status_text(max_clients: usize, active: nat) -> Seq<char> {
    let free = if active <= max_clients {
        (max_clients - active) as nat
    } else {
        0
    };
    decimal(free) + " slots free.\n"@ + decimal(active) + " slots in use.\n"@
}

/// Whether a path asks for maintenance mode with the right password.
pub open spec fn is_authorized(path: Seq<char>, password: Seq<char>) -> bool {
    let parts = split(path, '/');
    password.len() > 0 && parts.len() > 2 && parts[2] == password
}

/// Whether there is anything at a path.
pub open spec fn is_known_path(path: Seq<char>) -> bool {
    path == "/status"@ || path == "/request"@ || starts_with(path, "/maintenance/"@)
}

impl TunnelV2 {
    /// Reads the number of clients that a query asks for. The last number that is given counts;
    /// without one it is 0.
    pub fn parse_clients_param(query: &str) -> (clients: usize)
        ensures
            clients == clients_param(query@),
    {
        let params = split_chars(&chars_of(query), '&');
        let key = chars_of("clients=");
        let ghost all = split(query@, '&');
        let mut i: usize = params.len();
        assert(all.take(i as int) =~= all);
        while i > 0
            invariant
                i <= params@.len(),
                all == split(query@, '&'),
                params@.len() == all.len(),
                forall|j: int| 0 <= j < params@.len() ==> (#[trigger] params@[j])@ == all[j],
                key@ == "clients="@,
                last_clients_value(all) == last_clients_value(all.take(i as int)),
            decreases i,
        {
            i = i - 1;
            let param = &params[i];
            proof {
                assert(all.take(i + 1).last() == param@);
                assert(all.take(i + 1).drop_last() =~= all.take(i as int));
            }
            if has_prefix(param, &key) {
                let value = tail_of(param, key.len());
                if let Some(clients) = parse_unsigned(&value, usize::MAX as u64) {
                    return clients as usize;
                }
            }
        }
        0
    }

    /// Allocates IDs for `count` clients, with the clock at `now`. Either all of them get one, or
    /// nothing changes but the order in which IDs come next.
    pub fn allocate_client_ids_at(
        &mut self,
        mappings: &mut Table<i16, TunnelClient>,
        count: usize,
        now: u64,
    ) -> (ids: Vec<i16>)
        requires
            old(self)@.wf(),
        ensures
            final(self)@.wf(),
            ({
                let clients = states(old(mappings)@);
                let (granted, source) = allocation(
                    old(self)@.ids,
                    clients.dom(),
                    Seq::empty(),
                    count as nat,
                    old(self)@.settings.max_clients - clients.len(),
                );
                &&& final(self)@ == (V2State { ids: source, ..old(self)@ })
                &&& match granted {
                    Some(granted) => ids@ == granted && states(final(mappings)@) == with_clients(
                        clients,
                        granted,
                        old(self)@.clock,
                        now,
                    ),
                    None => ids@ == Seq::<i16>::empty() && states(final(mappings)@) == clients,
                }
            }),
    {
        let ghost clients = states(mappings@);
        let ghost limit = self@.settings.max_clients;
        let ghost (granted, source) = allocation(
            self@.ids,
            clients.dom(),
            Seq::empty(),
            count as nat,
            limit - clients.len(),
        );
        let mut ids: Vec<i16> = Vec::new();
        proof {
            lemma_states_dom(mappings@);
            assert(states(mappings@) =~= with_clients(clients, ids@, old(self)@.clock, now));
        }
        let mut left: usize = count;
        while left > 0
            invariant
                self@ == (V2State { ids: self@.ids, ..old(self)@ }),
                self@.wf(),
                limit == self@.settings.max_clients,
                clients == states(old(mappings)@),
                (granted, source) == allocation(
                    old(self)@.ids,
                    clients.dom(),
                    Seq::empty(),
                    count as nat,
                    limit - clients.len(),
                ),
                states(mappings@) == with_clients(clients, ids@, old(self)@.clock, now),
                mappings@.len() == clients.len() + ids@.len(),
                ids@.no_duplicates(),
                forall|i: int|
                    0 <= i < ids@.len() ==> !clients.contains_key(#[trigger] ids@[i]) && ids@[i]
                        != 0,
                (granted, source) == allocation(
                    self@.ids,
                    mappings@.dom(),
                    ids@,
                    left as nat,
                    limit - mappings@.len(),
                ),
            decreases left,
        {
            proof {
                lemma_states_dom(mappings@);
            }
            if mappings.len() >= self.config.max_clients {
                self.give_back(mappings, &ids, Ghost(clients), now);
                return Vec::new();
            }
            proof {
                lemma_pick(self@.ids, mappings@.dom(), MAX_ID_ALLOCATION_ATTEMPTS as nat);
            }
            match self.free_id(mappings) {
                None => {
                    self.give_back(mappings, &ids, Ghost(clients), now);
                    return Vec::new();
                },
                Some(id) => {
                    let mut client = TunnelClient::with_clock(CLIENT_TIMEOUT, self.clock, now);
                    client.update_last_receive_at(now);
                    let ghost before = mappings@;
                    let ghost earlier = ids@;
                    proof {
                        lemma_states_insert(before, id, client);
                    }
                    mappings.insert(id, client);
                    ids.push(id);
                    proof {
                        lemma_states_dom(mappings@);
                        assert(client@ == ClientState::fresh(CLIENT_TIMEOUT, self.clock, now));
                        assert(mappings@.dom() =~= before.dom().insert(id));
                        assert(ids@.contains(id)) by {
                            assert(ids@[ids@.len() - 1] == id);
                        }
                        assert forall|i: i16| ids@.contains(i) == (earlier.contains(i) || i
                            == id) by {
                            if earlier.contains(i) {
                                let j = choose|j: int| 0 <= j < earlier.len() && earlier[j] == i;
                                assert(ids@[j] == i);
                            }
                        }
                        assert(!states(before).contains_key(id));
                        assert(states(mappings@) =~= with_clients(clients, ids@, old(self)@.clock, now));
                        assert(!earlier.contains(id));
                        assert(!clients.contains_key(id));
                        assert(ids@.no_duplicates());
                    }
                },
            }
            left = left - 1;
        }
        ids
    }

    /// An ID that no client has, if one of the next few is.
    fn free_id(&mut self, mappings: &Table<i16, TunnelClient>) -> (id: Option<i16>)
        requires
            old(self)@.wf(),
        ensures
            final(self)@.wf(),
            final(self).clock == old(self).clock,
            ({
                let (picked, source) = old(self)@.ids.pick(
                    mappings@.dom(),
                    MAX_ID_ALLOCATION_ATTEMPTS as nat,
                );
                &&& id == picked
                &&& final(self)@ == (V2State { ids: source, ..old(self)@ })
            }),
    {
        let ghost result = self@.ids.pick(mappings@.dom(), MAX_ID_ALLOCATION_ATTEMPTS as nat);
        let mut attempts: usize = MAX_ID_ALLOCATION_ATTEMPTS;
        while attempts > 0
            invariant
                self@.wf(),
                self.clock == old(self).clock,
                self@ == (V2State { ids: self@.ids, ..old(self)@ }),
                result == old(self)@.ids.pick(
                    mappings@.dom(),
                    MAX_ID_ALLOCATION_ATTEMPTS as nat,
                ),
                result == self@.ids.pick(mappings@.dom(), attempts as nat),
            decreases attempts,
        {
            if let Some(id) = self.id_allocator.allocate() {
                if !mappings.contains_key(&id) {
                    return Some(id);
                }
            }
            attempts = attempts - 1;
        }
        None
    }

    /// Takes the new clients with the given IDs out again and gives their IDs back.
    fn give_back(
        &mut self,
        mappings: &mut Table<i16, TunnelClient>,
        ids: &Vec<i16>,
        Ghost(clients): Ghost<Map<i16, ClientState>>,
        now: u64,
    )
        requires
            old(self)@.wf(),
            states(old(mappings)@) == with_clients(clients, ids@, old(self)@.clock, now),
            forall|i: int| 0 <= i < ids@.len() ==> !clients.contains_key(#[trigger] ids@[i]),
        ensures
            final(self)@.wf(),
            final(self)@ == (V2State { ids: old(self)@.ids.freed_all(ids@), ..old(self)@ }),
            states(final(mappings)@) == clients,
    {
        let mut i: usize = 0;
        assert(ids@.take(0) =~= Seq::<i16>::empty());
        while i < ids.len()
            invariant
                i <= ids@.len(),
                self@.wf(),
                self@ == (V2State {
                    ids: old(self)@.ids.freed_all(ids@.take(i as int)),
                    ..old(self)@
                }),
                forall|j: int| 0 <= j < ids@.len() ==> !clients.contains_key(#[trigger] ids@[j]),
                forall|id: i16| #[trigger]
                    states(mappings@).contains_key(id) ==> clients.contains_key(id) || exists|j: int|
                        i <= j < ids@.len() && ids@[j] == id,
                forall|id: i16| #[trigger]
                    clients.contains_key(id) ==> states(mappings@).contains_key(id) && states(
                        mappings@,
                    )[id] == clients[id],
            decreases ids@.len() - i,
        {
            let id: i16 = ids[i];
            proof {
                lemma_states_remove(mappings@, id);
            }
            mappings.remove(&id);
            self.id_allocator.free(id);
            i = i + 1;
            proof {
                assert(ids@.take(i as int).drop_last() =~= ids@.take(i - 1));
                assert(ids@.take(i as int).last() == id);
            }
        }
        proof {
            assert(ids@.take(i as int) =~= ids@);
            assert(states(mappings@) =~= clients);
        }
    }

    /// Allocates IDs for `count` clients.
    pub fn allocate_client_ids(
        &mut self,
        mappings: &mut Table<i16, TunnelClient>,
        count: usize,
    ) -> (ids: Vec<i16>)
        requires
            old(self)@.wf(),
        ensures
            final(self)@.wf(),
            ({
                let clients = states(old(mappings)@);
                let (granted, source) = allocation(
                    old(self)@.ids,
                    clients.dom(),
                    Seq::empty(),
                    count as nat,
                    old(self)@.settings.max_clients - clients.len(),
                );
                &&& final(self)@ == (V2State { ids: source, ..old(self)@ })
                &&& match granted {
                    Some(granted) => ids@ == granted && exists|at:
                        std::time::Instant|
                        states(final(mappings)@) == with_clients(
                            clients,
                            granted,
                            old(self)@.clock,
                            #[trigger] old(self)@.clock.reading(at),
                        ),
                    None => ids@ == Seq::<i16>::empty() && states(final(mappings)@) == clients,
                }
            }),
    {
        let now: u64 = self.clock.now_ms();
        self.allocate_client_ids_at(mappings, count, now)
    }
}

/// The reply to a request for `asked` clients of which `granted` got an ID.
pub open spec fn game_reply(maintenance: bool, asked: nat, granted: Option<Seq<i16>>) -> crate::http::Reply {
    if maintenance {
        plain(503, Seq::empty())
    } else if asked < 2 || asked > 8 {
        plain(400, Seq::empty())
    } else {
        match granted {
            None => plain(503, Seq::empty()),
            Some(ids) => plain(200, "["@ + id_list(ids) + "]"@),
        }
    }
}

/// An allocation that succeeds gives every client an ID of its own: as many as were asked for,
/// all different, none of them 0, and none of them in use.
pub proof fn law_allocation_gives_new_ids(
    source: IdSource,
    used: Set<i16>,
    got: Seq<i16>,
    count: nat,
    room: int,
)
    requires
        source.wf(),
        got.no_duplicates(),
        forall|i: int| 0 <= i < got.len() ==> used.contains(#[trigger] got[i]) && got[i] != 0,
    ensures
        allocation(source, used, got, count, room).0 matches Some(ids) ==> {
            &&& ids.len() == got.len() + count
            &&& ids.no_duplicates()
            &&& ids.take(got.len() as int) == got
            &&& forall|i: int| 0 <= i < ids.len() ==> #[trigger] ids[i] != 0
            &&& forall|i: int| got.len() <= i < ids.len() ==> !used.contains(#[trigger] ids[i])
        },
    decreases count,
{
    if count == 0 {
        assert(got.take(got.len() as int) =~= got);
    } else if room > 0 {
        lemma_pick(source, used, MAX_ID_ALLOCATION_ATTEMPTS as nat);
        let (id, after) = source.pick(used, MAX_ID_ALLOCATION_ATTEMPTS as nat);
        if let Some(id) = id {
            let more = got.push(id);
            assert forall|i: int| 0 <= i < more.len() implies used.insert(id).contains(
                #[trigger] more[i],
            ) && more[i] != 0 by {}
            assert(more.no_duplicates()) by {
                assert(forall|i: int| 0 <= i < got.len() ==> #[trigger] got[i] != id);
            }
            law_allocation_gives_new_ids(
                after,
                used.insert(id),
                more,
                (count - 1) as nat,
                room - 1,
            );
            if let Some(ids) = allocation(source, used, got, count, room).0 {
                assert(ids.take(more.len() as int) == more);
                assert(ids.take(got.len() as int) =~= got) by {
                    assert forall|i: int| 0 <= i < got.len() implies ids[i] == got[i] by {
                        assert(ids.take(more.len() as int)[i] == more[i]);
                    }
                }
                assert forall|i: int| got.len() <= i < ids.len() implies !used.contains(
                    #[trigger] ids[i],
                ) by {
                    if i == got.len() {
                        assert(ids.take(more.len() as int)[i] == more[i]);
                    }
                }
            }
        }
    }
}

/// Nobody gets an ID when there is not room for everybody.
pub proof fn law_no_allocation_beyond_capacity(
    source: IdSource,
    used: Set<i16>,
    got: Seq<i16>,
    count: nat,
    room: int,
)
    requires
        count > room,
    ensures
        allocation(source, used, got, count, room).0 is None || count == 0,
    decreases count,
{
    if count > 0 && room > 0 {
        let (id, after) = source.pick(used, MAX_ID_ALLOCATION_ATTEMPTS as nat);
        if let Some(id) = id {
            law_no_allocation_beyond_capacity(
                after,
                used.insert(id),
                got.push(id),
                (count - 1) as nat,
                room - 1,
            );
        }
    }
}

/// As long as no ID is both freed and in use and enough of them are left, everybody gets an ID if
/// there is room. Whether there is or not, no ID comes to be both freed and in use.
pub proof fn law_allocation_succeeds_while_ids_are_left(
    source: IdSource,
    used: Set<i16>,
    count: nat,
    room: int,
)
    requires
        source.wf(),
        source.apart(used),
        count <= source.left(),
    ensures
        ({
            let (ids, after) = allocation(source, used, Seq::empty(), count, room);
            if count == 0 || count <= room {
                ids matches Some(ids) && ids.len() == count && after.apart(
                    used.union(ids.to_set()),
                )
            } else {
                ids is None && after.apart(used)
            }
        }),
{
    let none = Seq::<i16>::empty();
    lemma_allocation_keeps_apart(source, used, none, count, room);
    law_allocation_gives_new_ids(source, used, none, count, room);
    assert(used.difference(none.to_set()) =~= used);
}

/// Cleaning up gives back the IDs of the clients that have timed out: no ID comes to be both freed
/// and in use.
pub proof fn law_cleanup_keeps_ids_apart(
    source: IdSource,
    clients: Map<i16, ClientState>,
    order: Seq<i16>,
    now: u64,
)
    requires
        source.wf(),
        source.apart(clients.dom()),
        is_expired_list(order, clients, now),
    ensures
        source.freed_all(order).apart(survivors(clients, now).dom()),
{
    assert forall|i: int| 0 <= i < order.len() implies clients.dom().contains(
        #[trigger] order[i],
    ) by {
        assert(order.contains(order[i]));
    }
    law_freed_ids_are_not_outstanding(source, clients.dom(), order);
    assert(clients.dom().difference(order.to_set()) =~= survivors(clients, now).dom());
}

proof fn lemma_allocation_keeps_apart(
    source: IdSource,
    used: Set<i16>,
    got: Seq<i16>,
    count: nat,
    room: int,
)
    requires
        source.wf(),
        source.apart(used),
        count <= source.left(),
        got.no_duplicates(),
        forall|i: int| 0 <= i < got.len() ==> used.contains(#[trigger] got[i]),
    ensures
        ({
            let (ids, after) = allocation(source, used, got, count, room);
            if count == 0 || count <= room {
                ids matches Some(ids) && after.apart(used.union(ids.to_set()))
            } else {
                ids is None && after.apart(used.difference(got.to_set()))
            }
        }),
    decreases count,
{
    if count == 0 {
        assert(used.union(got.to_set()) =~= used);
    } else if room <= 0 {
        law_freed_ids_are_not_outstanding(source, used, got);
    } else {
        let id = source.next_id();
        law_outstanding_ids_are_distinct(source, used);
        assert(source.pick(used, MAX_ID_ALLOCATION_ATTEMPTS as nat) == (
            Some(id),
            source.taken(),
        ));
        let more = got.push(id);
        assert forall|i: int| 0 <= i < more.len() implies used.insert(id).contains(
            #[trigger] more[i],
        ) by {}
        assert(more.no_duplicates()) by {
            assert(forall|i: int| 0 <= i < got.len() ==> #[trigger] got[i] != id);
        }
        let rest = (count - 1) as nat;
        lemma_allocation_keeps_apart(source.taken(), used.insert(id), more, rest, room - 1);
        if count <= room {
            let ids = allocation(source, used, got, count, room).0->0;
            assert(ids.contains(id)) by {
                lemma_allocation_extends(source.taken(), used.insert(id), more, rest, room - 1);
                assert(ids.take(more.len() as int)[got.len() as int] == id);
            }
            assert(used.insert(id).union(ids.to_set()) =~= used.union(ids.to_set()));
        } else {
            assert(used.insert(id).difference(more.to_set()) =~= used.difference(got.to_set())) by {
                assert forall|other: i16| more.contains(other) <==> got.contains(other) || other
                    == id by {
                    if got.contains(other) {
                        let i = choose|i: int| 0 <= i < got.len() && got[i] == other;
                        assert(more[i] == other);
                    }
                    assert(more[got.len() as int] == id);
                }
            }
        }
    }
}

proof fn lemma_allocation_extends(
    source: IdSource,
    used: Set<i16>,
    got: Seq<i16>,
    count: nat,
    room: int,
)
    ensures
        allocation(source, used, got, count, room).0 matches Some(ids) ==> ids.len() == got.len()
            + count && ids.take(got.len() as int) == got,
    decreases count,
{
    if count == 0 {
        assert(got.take(got.len() as int) =~= got);
    } else if room > 0 {
        let (id, after) = source.pick(used, MAX_ID_ALLOCATION_ATTEMPTS as nat);
        if let Some(id) = id {
            let more = got.push(id);
            lemma_allocation_extends(after, used.insert(id), more, (count - 1) as nat, room - 1);
            if let Some(ids) = allocation(source, used, got, count, room).0 {
                assert forall|i: int| 0 <= i < got.len() implies ids[i] == got[i] by {
                    assert(ids.take(more.len() as int)[i] == more[i]);
                }
                assert(ids.take(got.len() as int) =~= got);
            }
        }
    }
}

impl TunnelV2 {
    /// Answers a request for maintenance mode. With the right password it is enabled.
    pub fn handle_maintenance_request(&mut self, path: &str) -> (response: Response)
        ensures
            ({
                let authorized = is_authorized(path@, old(self)@.settings.maintenance_password);
                &&& response@ == plain(
                    if authorized {
                        200
                    } else {
                        401
                    },
                    Seq::empty(),
                )
                &&& final(self)@ == (V2State {
                    maintenance: old(self)@.maintenance || authorized,
                    ..old(self)@
                })
            }),
    {
        if !self.config.maintenance_password.as_str().is_empty() {
            let parts = split_chars(&chars_of(path), '/');
            if parts.len() > 2 {
                let password = chars_of(self.config.maintenance_password.as_str());
                if same_chars(&parts[2], &password) {
                    self.maintenance_mode = true;
                    return Response::empty(200);
                }
            }
        }
        Response::empty(401)
    }

    /// Answers a request for the status page.
    pub fn handle_status_request(&self, mappings: &Table<i16, TunnelClient>) -> (response: Response)
        ensures
            response@ == plain(
                200,
                status_text(self@.settings.max_clients, mappings@.len()),
            ),
    {
        let active: usize = mappings.len();
        let free: usize = self.config.max_clients.saturating_sub(active);
        let mut status = String::new();
        push_decimal(&mut status, free as u64);
        status.append(" slots free.\n");
        push_decimal(&mut status, active as u64);
        status.append(" slots in use.\n");
        assert(status@ =~= status_text(self@.settings.max_clients, mappings@.len()));
        Response { status: 200, header: None, body: status }
    }

    /// Answers a request for game slots, with the clock at `now`.
    pub fn handle_game_request_at(
        &mut self,
        query: &str,
        mappings: &mut Table<i16, TunnelClient>,
        now: u64,
    ) -> (response: Response)
        requires
            old(self)@.wf(),
        ensures
            final(self)@.wf(),
            ({
                let before = old(self)@;
                let asked = clients_param(query@);
                let clients = states(old(mappings)@);
                let (granted, source) = allocation(
                    before.ids,
                    clients.dom(),
                    Seq::empty(),
                    asked,
                    before.settings.max_clients - clients.len(),
                );
                &&& response@ == game_reply(before.maintenance, asked, granted)
                &&& if before.maintenance || asked < 2 || asked > 8 {
                    final(self)@ == before && states(final(mappings)@) == clients
                } else {
                    match granted {
                        None => final(self)@ == (V2State { ids: source, ..before }) && states(
                            final(mappings)@,
                        ) == clients,
                        Some(ids) => {
                            &&& final(self)@ == (V2State { ids: source, ..before }).count(
                                before.counters.with_game_slots(asked as u64).with_connections(
                                    asked as usize,
                                ),
                            )
                            &&& states(final(mappings)@) == with_clients(
                                clients,
                                ids,
                                before.clock,
                                now,
                            )
                        },
                    }
                }
            }),
    {
        if self.maintenance_mode {
            return Response::empty(503);
        }
        let clients: usize = Self::parse_clients_param(query);
        if clients < 2 || clients > 8 {
            return Response::empty(400);
        }
        proof {
            lemma_states_dom(mappings@);
            law_allocation_gives_new_ids(
                self@.ids,
                states(mappings@).dom(),
                Seq::empty(),
                clients as nat,
                self@.settings.max_clients - states(mappings@).len(),
            );
        }
        let ids = self.allocate_client_ids_at(mappings, clients, now);
        if ids.len() < 2 {
            return Response::empty(503);
        }
        self.metrics.add_game_slots(clients as u64);
        self.metrics.add_active_connections(clients);
        let mut body = String::new();
        body.append("[");
        let ghost start = body@;
        push_signed_decimal(&mut body, ids[0]);
        let mut i: usize = 1;
        proof {
            assert(ids@.take(1)[0] == ids@[0]);
            assert(body@ =~= start + id_list(ids@.take(1)));
        }
        while i < ids.len()
            invariant
                1 <= i <= ids@.len(),
                body@ == start + id_list(ids@.take(i as int)),
            decreases ids@.len() - i,
        {
            body.append(",");
            push_signed_decimal(&mut body, ids[i]);
            i = i + 1;
            proof {
                let shown = ids@.take(i as int);
                assert(shown.drop_last() =~= ids@.take(i - 1));
                assert(shown.last() == ids@[i - 1]);
                assert(body@ =~= start + id_list(shown));
            }
        }
        body.append("]");
        proof {
            assert(ids@.take(i as int) =~= ids@);
            assert(start =~= "["@);
        }
        Response { status: 200, header: None, body }
    }

    /// Answers an HTTP request, with the clock at `now`.
    pub fn handle_http_request_at(
        &mut self,
        path: &str,
        query: &str,
        remote_addr: SocketAddr,
        mappings: &mut Table<i16, TunnelClient>,
        now: u64,
    ) -> (response: Response)
        requires
            old(self)@.wf(),
            is_known_path(path@) ==> old(self)@.takes_requests(),
        ensures
            final(self)@.wf(),
            final(self)@.takes_requests() == old(self)@.takes_requests(),
            ({
                let before = old(self)@;
                let after = final(self)@;
                let clients = states(old(mappings)@);
                let received = before.counters.with_http_received();
                if !is_known_path(path@) {
                    &&& response@ == plain(404, Seq::empty())
                    &&& after == before.count(received)
                    &&& states(final(mappings)@) == clients
                } else {
                    exists|refused: bool| #[trigger]
                        requested_both(
                            before.requests,
                            after.requests,
                            before.shared_requests,
                            after.shared_requests,
                            remote_addr.ip.spec_key(),
                            now,
                            refused,
                        ) && ({
                            let admitted = V2State {
                                requests: after.requests,
                                shared_requests: after.shared_requests,
                                ..before
                            };
                            if refused {
                                &&& response@ == plain(429, Seq::empty())
                                &&& after == admitted.count(received.with_http_rate_limited())
                                &&& states(final(mappings)@) == clients
                            } else {
                                http_answer(
                                    admitted,
                                    received,
                                    clients,
                                    path@,
                                    query@,
                                    now,
                                    response@,
                                    after,
                                    states(final(mappings)@),
                                )
                            }
                        })
                }
            }),
    {
        self.metrics.inc_http_received();
        let path_chars = chars_of(path);
        let is_maintenance = has_prefix(&path_chars, &chars_of("/maintenance/"));
        let is_status = same_text(path, "/status");
        let is_request = same_text(path, "/request");
        if !is_status && !is_request && !is_maintenance {
            return Response::empty(404);
        }
        if limit_reached_at(
            &mut self.request_manager,
            &mut self.global_request_limiter,
            remote_addr.ip,
            now,
        ) {
            self.metrics.inc_http_rate_limited();
            return Response::empty(429);
        }
        let response = if is_maintenance {
            self.handle_maintenance_request(path)
        } else if is_status {
            self.handle_status_request(mappings)
        } else {
            self.handle_game_request_at(query, mappings, now)
        };
        proof {
            lemma_states_dom(old(mappings)@);
        }
        self.metrics.inc_http_processed();
        response
    }
}

/// What a request at a known path that is not over the limit leads to: the reply, the state of
/// the service and the clients.
pub open spec fn http_answer(
    before: V2State,
    received: MetricsSnapshot,
    clients: Map<i16, ClientState>,
    path: Seq<char>,
    query: Seq<char>,
    now: u64,
    reply: crate::http::Reply,
    after: V2State,
    clients_after: Map<i16, ClientState>,
) -> bool {
    if starts_with(path, "/maintenance/"@) {
        let authorized = is_authorized(path, before.settings.maintenance_password);
        &&& reply == plain(
            if authorized {
                200
            } else {
                401
            },
            Seq::empty(),
        )
        &&& after == (V2State { maintenance: before.maintenance || authorized, ..before }).count(
            received.with_http_processed(),
        )
        &&& clients_after == clients
    } else if path == "/status"@ {
        &&& reply == plain(200, status_text(before.settings.max_clients, clients.len()))
        &&& after == before.count(received.with_http_processed())
        &&& clients_after == clients
    } else {
        let asked = clients_param(query);
        let (granted, source) = allocation(
            before.ids,
            clients.dom(),
            Seq::empty(),
            asked,
            before.settings.max_clients - clients.len(),
        );
        &&& reply == game_reply(before.maintenance, asked, granted)
        &&& if before.maintenance || asked < 2 || asked > 8 {
            after == before.count(received.with_http_processed()) && clients_after == clients
        } else {
            match granted {
                None => {
                    &&& after == (V2State { ids: source, ..before }).count(
                        received.with_http_processed(),
                    )
                    &&& clients_after == clients
                },
                Some(ids) => {
                    &&& after == (V2State { ids: source, ..before }).count(
                        received.with_game_slots(asked as u64).with_connections(
                            asked as usize,
                        ).with_http_processed(),
                    )
                    &&& clients_after == with_clients(clients, ids, before.clock, now)
                },
            }
        }
    }
}

/// Public counters of the service.
#[derive(Debug, Clone, Copy, PartialEq, Eq, Structural)]
pub struct V2Metrics {
    pub udp_packets_received: u64,
    pub udp_packets_processed: u64,
    pub udp_packets_dropped: u64,
    pub packets_tunneled: u64,
    pub http_requests_received: u64,
    pub http_requests_processed: u64,
    pub http_requests_rate_limited: u64,
    pub game_slots_allocated: u64,
    pub active_connections: usize,
}

impl TunnelV2 {
    /// Removes the clients that have timed out, with the clock at `now`, and gives their IDs
    /// back.
    pub fn cleanup_expired_at(&mut self, mappings: &mut Table<i16, TunnelClient>, now: u64)
        requires
            old(self)@.wf(),
        ensures
            final(self)@.wf(),
            states(final(mappings)@) == survivors(states(old(mappings)@), now),
            exists|order: Seq<i16>| #[trigger]
                is_expired_list(order, states(old(mappings)@), now) && final(self)@ == (V2State {
                    ids: old(self)@.ids.freed_all(order),
                    ..old(self)@
                }).count(old(self)@.counters.without_connections(order.len() as usize)),
    {
        let ghost clients = states(mappings@);
        let listed = mappings.entries();
        let mut expired: Vec<i16> = Vec::new();
        let mut i: usize = 0;
        proof {
            lemma_listing_len(listed@, mappings@);
            lemma_states_dom(mappings@);
        }
        while i < listed.len()
            invariant
                i <= listed@.len(),
                lists(listed@, old(mappings)@),
                clients == states(old(mappings)@),
                clients.dom() == old(mappings)@.dom(),
                expired@.len() <= i,
                expired@.no_duplicates(),
                forall|id: i16| #[trigger]
                    expired@.contains(id) <==> clients[id].timed_out(now) && listed_before(
                        listed@,
                        i as int,
                        id,
                    ),
                forall|id: i16| #[trigger]
                    states(mappings@).contains_key(id) <==> clients.contains_key(id) && !(
                    clients[id].timed_out(now) && listed_before(listed@, i as int, id)),
                forall|id: i16| #[trigger]
                    states(mappings@).contains_key(id) ==> states(mappings@)[id]
                        == if listed_before(listed@, i as int, id) {
                        clients[id].measured(now)
                    } else {
                        clients[id]
                    },
                self@.wf(),
                self@ == (V2State {
                    ids: old(self)@.ids.freed_all(expired@),
                    ..old(self)@
                }),
            decreases listed@.len() - i,
        {
            let (id, found) = listed[i];
            let mut client = found;
            let ghost before = expired@;
            proof {
                assert(old(mappings)@.contains_key(listed@[i as int].0));
                assert(clients[id] == client@);
                assert(!listed_before(listed@, i as int, id));
                assert forall|other: i16| #[trigger]
                    listed_before(listed@, i + 1, other) == (other == id || listed_before(
                        listed@,
                        i as int,
                        other,
                    )) by {
                    assert(listed@[i as int].0 == id);
                }
            }
            if client.is_timed_out_at(now) {
                proof {
                    lemma_states_remove(mappings@, id);
                }
                mappings.remove(&id);
                self.id_allocator.free(id);
                expired.push(id);
                proof {
                    assert(expired@.drop_last() =~= before);
                    assert(!before.contains(id));
                    assert(expired@[expired@.len() - 1] == id);
                }
            } else {
                proof {
                    lemma_states_insert(mappings@, id, client);
                }
                mappings.insert(id, client);
            }
            i = i + 1;
            proof {
                assert forall|other: i16| #[trigger]
                    expired@.contains(other) <==> clients[other].timed_out(now) && listed_before(
                        listed@,
                        i as int,
                        other,
                    ) by {
                    assert(before.contains(other) <==> clients[other].timed_out(now)
                        && listed_before(listed@, i - 1, other));
                    if before.contains(other) {
                        let j = choose|j: int| 0 <= j < before.len() && before[j] == other;
                        assert(expired@[j] == other);
                    }
                    if expired@.contains(other) && other != id {
                        let j = choose|j: int| 0 <= j < expired@.len() && expired@[j] == other;
                        assert(before[j] == other);
                    }
                }
            }
        }
        self.metrics.sub_active_connections(expired.len());
        proof {
            assert forall|id: i16| clients.contains_key(id) implies #[trigger] listed_before(
                listed@,
                i as int,
                id,
            ) by {
                assert(old(mappings)@.contains_key(id));
            }
            assert forall|id: i16| #[trigger] listed_before(
                listed@,
                i as int,
                id,
            ) implies clients.contains_key(id) by {
                let j = choose|j: int| 0 <= j < i && (#[trigger] listed@[j]).0 == id;
                assert(old(mappings)@.contains_key(listed@[j].0));
            }
            assert(states(mappings@) =~= survivors(clients, now));
            assert(is_expired_list(expired@, clients, now));
        }
    }

    /// Does the work of a heartbeat, with the clock at `now`: removes the clients that have timed
    /// out, and comes back with the address that announces the service, if it is announced.
    pub fn send_heartbeat_at(
        &mut self,
        mappings: &mut Table<i16, TunnelClient>,
        now: u64,
    ) -> (url: Option<String>)
        requires
            old(self)@.wf(),
        ensures
            final(self)@.wf(),
            states(final(mappings)@) == survivors(states(old(mappings)@), now),
            exists|order: Seq<i16>| #[trigger]
                is_expired_list(order, states(old(mappings)@), now) && final(self)@ == (V2State {
                    ids: old(self)@.ids.freed_all(order),
                    ..old(self)@
                }).count(old(self)@.counters.without_connections(order.len() as usize)),
            is_heartbeat_url(
                url,
                old(self)@.settings.no_master_announce,
                old(self)@.settings.master_server_url,
                old(self)@.settings.name,
                2,
                old(self)@.settings.port,
                final(mappings)@.len(),
                old(self)@.settings.max_clients as nat,
                old(self)@.settings.master_password,
                old(self)@.maintenance,
            ),
    {
        self.cleanup_expired_at(mappings, now);
        let clients: usize = mappings.len();
        heartbeat_url(
            self.config.no_master_announce,
            self.config.master_server_url.as_str(),
            self.config.name.as_str(),
            2,
            self.config.port,
            clients,
            self.config.max_clients,
            self.config.master_password.as_str(),
            self.maintenance_mode,
        )
    }

    /// The counters of the service.
    pub fn metrics(&self) -> (metrics: V2Metrics)
        ensures
            metrics == (V2Metrics {
                udp_packets_received: self@.counters.udp_packets_received,
                udp_packets_processed: self@.counters.udp_packets_processed,
                udp_packets_dropped: self@.counters.udp_packets_dropped,
                packets_tunneled: self@.counters.packets_tunneled,
                http_requests_received: self@.counters.http_requests_received,
                http_requests_processed: self@.counters.http_requests_processed,
                http_requests_rate_limited: self@.counters.http_requests_rate_limited,
                game_slots_allocated: self@.counters.game_slots_allocated,
                active_connections: self@.counters.active_connections,
            }),
    {
        let snapshot = self.metrics.snapshot();
        V2Metrics {
            udp_packets_received: snapshot.udp_packets_received,
            udp_packets_processed: snapshot.udp_packets_processed,
            udp_packets_dropped: snapshot.udp_packets_dropped,
            packets_tunneled: snapshot.packets_tunneled,
            http_requests_received: snapshot.http_requests_received,
            http_requests_processed: snapshot.http_requests_processed,
            http_requests_rate_limited: snapshot.http_requests_rate_limited,
            game_slots_allocated: snapshot.game_slots_allocated,
            active_connections: snapshot.active_connections,
        }
    }

    /// Drops the ping limits of addresses that have not been active, with the clock at `now`, and
    /// comes back with the milliseconds to wait before this is done again.
    pub fn cleanup_pings_at(&mut self, now: u64) -> (delay_ms: u64)
        requires
            old(self)@.wf(),
        ensures
            final(self)@.wf(),
            final(self)@ == (V2State { pings: old(self)@.pings.cleaned_up(now), ..old(self)@ }),
            delay_ms == final(self)@.pings.next_cleanup_delay(),
    {
        self.ping_manager.cleanup_at(now);
        self.ping_manager.next_cleanup_delay_ms()
    }

    /// Drops the request limits of addresses that have not been active, with the clock at `now`,
    /// and comes back with the milliseconds to wait before this is done again.
    pub fn cleanup_requests_at(&mut self, now: u64) -> (delay_ms: u64)
        requires
            old(self)@.wf(),
        ensures
            final(self)@.wf(),
            final(self)@ == (V2State {
                requests: old(self)@.requests.cleaned_up(now),
                ..old(self)@
            }),
            delay_ms == final(self)@.requests.next_cleanup_delay(),
    {
        self.request_manager.cleanup_at(now);
        self.request_manager.next_cleanup_delay_ms()
    }
}

/// A packet is never sent back to where it came from.
pub proof fn law_never_back_to_the_sender(
    clients: Map<i16, ClientState>,
    counters: MetricsSnapshot,
    sender: i16,
    receiver: i16,
    addr: SocketAddr,
    now: u64,
)
    ensures
        tunnel_step(clients, counters, sender, receiver, addr, now).2 != Some(addr),
{
}

/// A packet is forwarded only for a client that is known, and only from the address that this
/// client has; only that client is affected by it.
pub proof fn law_strangers_are_not_forwarded(
    clients: Map<i16, ClientState>,
    counters: MetricsSnapshot,
    sender: i16,
    receiver: i16,
    addr: SocketAddr,
    now: u64,
)
    ensures
        ({
            let (after, _, to) = tunnel_step(clients, counters, sender, receiver, addr, now);
            &&& to is Some ==> owns(clients, sender, addr) && after[sender].remote_ep == Some(addr)
            &&& after.dom() == clients.dom()
            &&& forall|other: i16| other != sender ==> after[other] == clients[other]
            &&& clients.contains_key(sender) && clients[sender].remote_ep is Some
                ==> after[sender].remote_ep == clients[sender].remote_ep
        }),
{
    let (after, _, to) = tunnel_step(clients, counters, sender, receiver, addr, now);
    assert(after.dom() =~= clients.dom());
}

/// Two known clients can talk to each other: a packet from one, sent from its address, goes to
/// the address of the other.
pub proof fn law_known_clients_are_connected(
    clients: Map<i16, ClientState>,
    counters: MetricsSnapshot,
    sender: i16,
    receiver: i16,
    from: SocketAddr,
    to: SocketAddr,
    now: u64,
)
    requires
        sender != receiver,
        from != to,
        clients.contains_key(sender) && clients[sender].remote_ep == Some(from),
        clients.contains_key(receiver) && clients[receiver].remote_ep == Some(to),
    ensures
        tunnel_step(clients, counters, sender, receiver, from, now).2 == Some(to),
{
}

/// A packet starts with the IDs of its sender and its receiver, 16 bits each, the high byte first.
/// It is worth looking at unless it goes from a client to itself or comes from where no packet can
/// come from.
pub proof fn law_header_is_read(data: Seq<u8>, addr: SocketAddr)
    requires
        data.len() >= 4,
    ensures
        ({
            let (sender, receiver) = packet_ids(data);
            &&& data[0] < 128 ==> sender == 256 * data[0] + data[1]
            &&& data[0] >= 128 ==> sender == 256 * data[0] + data[1] - 65_536
            &&& data[2] < 128 ==> receiver == 256 * data[2] + data[3]
            &&& data[2] >= 128 ==> receiver == 256 * data[2] + data[3] - 65_536
            &&& valid_packet(sender, receiver, addr) <==> (sender != receiver || sender == 0)
                && !spec_is_invalid_source(addr)
        }),
{
}

/// A packet of a client counts as its sign of life, and one that has no address yet gets the one
/// that it came from. A client whose address is another one is left alone, and the packet goes
/// nowhere without being counted; so does the packet of an unknown client, which is counted.
pub proof fn law_packet_renews_its_client(
    clients: Map<i16, ClientState>,
    counters: MetricsSnapshot,
    sender: i16,
    receiver: i16,
    addr: SocketAddr,
    other_addr: SocketAddr,
    now: u64,
)
    ensures
        ({
            let (after, counters_after, to) = tunnel_step(
                clients,
                counters,
                sender,
                receiver,
                addr,
                now,
            );
            &&& !clients.contains_key(sender) ==> after == clients && to is None && counters_after
                == (MetricsSnapshot {
                udp_packets_processed: counters.udp_packets_processed.wrapping_add(1),
                ..counters
            })
            &&& clients.contains_key(sender) && other_addr != addr && clients[sender].remote_ep
                == Some(other_addr) ==> after == clients && to is None && counters_after == counters
            &&& clients.contains_key(sender) && (clients[sender].remote_ep is None
                || clients[sender].remote_ep == Some(addr)) ==> {
                &&& after.dom() == clients.dom()
                &&& after[sender].remote_ep == Some(addr)
                &&& after[sender].timeout == clients[sender].timeout
                &&& clients[sender].reference <= now ==> after[sender].silent_for(now) == 0
                &&& clients[sender].reference <= now && now - clients[sender].reference
                    < 18_446_744_073_709_551 ==> after[sender].reference
                    == clients[sender].reference && after[sender].last_receive == now
                    - clients[sender].reference
                &&& counters_after == (MetricsSnapshot {
                    udp_packets_processed: counters.udp_packets_processed.wrapping_add(1),
                    ..counters
                })
            }
        }),
{
    let (after, _, _) = tunnel_step(clients, counters, sender, receiver, addr, now);
    assert(after.dom() =~= clients.dom());
}

/// A packet that its sender may send goes to the address of its receiver, whenever that client is
/// known, has an address, and is elsewhere; otherwise nowhere.
pub proof fn law_packets_reach_their_receiver(
    clients: Map<i16, ClientState>,
    counters: MetricsSnapshot,
    sender: i16,
    receiver: i16,
    addr: SocketAddr,
    now: u64,
)
    requires
        sender != receiver,
        clients.contains_key(sender),
        clients[sender].remote_ep is None || clients[sender].remote_ep == Some(addr),
    ensures
        ({
            let to = tunnel_step(clients, counters, sender, receiver, addr, now).2;
            &&& !clients.contains_key(receiver) ==> to is None
            &&& clients.contains_key(receiver) && clients[receiver].remote_ep is None ==> to is None
            &&& clients.contains_key(receiver) && clients[receiver].remote_ep == Some(addr)
                ==> to is None
            &&& clients.contains_key(receiver) && clients[receiver].remote_ep is Some
                && clients[receiver].remote_ep != Some(addr) ==> to == clients[receiver].remote_ep
        }),
{
}

/// A packet of 4 to 1024 bytes is processed if there is a place for it. Others are counted as
/// dropped; only a shutdown ends the loop.
pub proof fn law_packets_of_the_size_are_processed(
    counters: MetricsSnapshot,
    event: ReceiveEvent,
    size: usize,
)
    ensures
        ({
            let (action, after) = receive_step(counters, event);
            let fits = 4 <= size <= 1024;
            &&& action is Stop <==> event is Shutdown
            &&& action is Process <==> event == ReceiveEvent::Permit(true)
            &&& event == ReceiveEvent::Packet(size) ==> (action is AskPermit <==> fits)
            &&& !(event is Packet) ==> !(action is AskPermit)
            &&& event == ReceiveEvent::Packet(size) ==> after == (MetricsSnapshot {
                udp_packets_received: counters.udp_packets_received.wrapping_add(1),
                udp_packets_dropped: if fits {
                    counters.udp_packets_dropped
                } else {
                    counters.udp_packets_dropped.wrapping_add(1)
                },
                ..counters
            })
            &&& event == ReceiveEvent::Permit(false) ==> after == (MetricsSnapshot {
                udp_packets_dropped: counters.udp_packets_dropped.wrapping_add(1),
                ..counters
            })
            &&& event is Shutdown || event == ReceiveEvent::Permit(true) || event is Failed
                || event is TimedOut ==> after == counters
        }),
{
}

/// Every counter counts its own events, and no others.
pub proof fn law_events_are_counted(counters: MetricsSnapshot, n: u64, count: usize)
    ensures
        counters.with_received() == (MetricsSnapshot {
            udp_packets_received: counters.udp_packets_received.wrapping_add(1),
            ..counters
        }),
        counters.with_processed() == (MetricsSnapshot {
            udp_packets_processed: counters.udp_packets_processed.wrapping_add(1),
            ..counters
        }),
        counters.with_dropped() == (MetricsSnapshot {
            udp_packets_dropped: counters.udp_packets_dropped.wrapping_add(1),
            ..counters
        }),
        counters.with_tunneled() == (MetricsSnapshot {
            packets_tunneled: counters.packets_tunneled.wrapping_add(1),
            ..counters
        }),
        counters.with_http_received() == (MetricsSnapshot {
            http_requests_received: counters.http_requests_received.wrapping_add(1),
            ..counters
        }),
        counters.with_http_processed() == (MetricsSnapshot {
            http_requests_processed: counters.http_requests_processed.wrapping_add(1),
            ..counters
        }),
        counters.with_http_rate_limited() == (MetricsSnapshot {
            http_requests_rate_limited: counters.http_requests_rate_limited.wrapping_add(1),
            ..counters
        }),
        counters.with_game_slots(n) == (MetricsSnapshot {
            game_slots_allocated: counters.game_slots_allocated.wrapping_add(n),
            ..counters
        }),
        counters.with_connections(count) == (MetricsSnapshot {
            active_connections: counters.active_connections.wrapping_add(count),
            ..counters
        }),
        counters.without_connections(count) == (MetricsSnapshot {
            active_connections: counters.active_connections.wrapping_sub(count),
            ..counters
        }),
{
}

/// A new service is not in maintenance, has counted nothing and given out no ID, and its limits are
/// those of its settings: as many requests and pings in every interval, from the start.
pub proof fn law_new_service_has_its_limits(settings: V2Settings, clock: MonotonicClock, now: u64)
    requires
        settings.max_pings_per_ip <= u32::MAX,
        settings.max_pings_global <= u32::MAX,
        settings.max_requests_per_ip <= u32::MAX,
        settings.max_requests_global <= u32::MAX,
    ensures
        ({
            let state = V2State::initial(settings, clock, now);
            &&& state.settings == settings
            &&& state.clock == clock
            &&& !state.maintenance
            &&& state.ids.next_id() == 1
            &&& state.pings.buckets.len() == 0 && state.requests.buckets.len() == 0
            &&& state.pings.config.max_tokens == settings.max_pings_per_ip
            &&& state.pings.config.refill_rate == settings.max_pings_per_ip
            &&& state.pings.config.refill_interval_ms == settings.reset_interval_ms
            &&& state.requests.config.max_tokens == settings.max_requests_per_ip
            &&& state.requests.config.refill_rate == settings.max_requests_per_ip
            &&& state.requests.config.refill_interval_ms == settings.reset_interval_ms
            &&& state.shared_pings.tokens == settings.max_pings_global
            &&& state.shared_pings.config.max_tokens == settings.max_pings_global
            &&& state.shared_pings.config.refill_rate == settings.max_pings_global
            &&& state.shared_pings.config.refill_interval_ms == settings.reset_interval_ms
            &&& state.shared_requests.tokens == settings.max_requests_global
            &&& state.shared_requests.config.max_tokens == settings.max_requests_global
            &&& state.shared_requests.config.refill_rate == settings.max_requests_global
            &&& state.shared_requests.config.refill_interval_ms == settings.reset_interval_ms
            &&& state.counters == (MetricsSnapshot {
                udp_packets_received: 0,
                udp_packets_processed: 0,
                udp_packets_dropped: 0,
                packets_tunneled: 0,
                http_requests_received: 0,
                http_requests_processed: 0,
                http_requests_rate_limited: 0,
                game_slots_allocated: 0,
                active_connections: 0,
            })
        }),
{
}

/// Unless something else is asked for, the service has room for 200 clients, 4 of an address, on
/// port 50000, and an address may send 20 pings and 4 requests a minute. Settings that cannot be
/// used become these, and the others stay.
pub proof fn law_settings_are_normalized(settings: V2Settings)
    ensures
        V2Settings::defaults() == (V2Settings {
            port: 50_000,
            max_clients: 200,
            ip_limit: 4,
            name: "Unnamed server"@,
            no_master_announce: false,
            master_password: Seq::empty(),
            maintenance_password: "KUYn3b2z"@,
            master_server_url: "http://cncnet.org/master-announce"@,
            max_pings_per_ip: 20,
            max_pings_global: 5000,
            max_requests_per_ip: 4,
            max_requests_global: 1000,
            reset_interval_ms: 60_000,
            max_concurrent_http: 100,
            max_concurrent_processing: 2000,
        }),
        ({
            let normalized = settings.normalized();
            &&& settings.port > 1024 ==> normalized.port == settings.port
            &&& settings.port <= 1024 ==> normalized.port == 50_000
            &&& settings.max_clients >= 2 ==> normalized.max_clients == settings.max_clients
            &&& settings.max_clients < 2 ==> normalized.max_clients == 200
            &&& settings.ip_limit >= 1 ==> normalized.ip_limit == settings.ip_limit
            &&& settings.ip_limit == 0 ==> normalized.ip_limit == 4
            &&& settings.name.len() == 0 ==> normalized.name == "Unnamed server"@
            &&& settings.name.len() > 0 ==> normalized.name == without(settings.name, ';')
            &&& normalized == (V2Settings {
                port: normalized.port,
                max_clients: normalized.max_clients,
                ip_limit: normalized.ip_limit,
                name: normalized.name,
                ..settings
            })
        }),
{
}

/// A query asks for what its last `clients` parameter with a number says; parameters of any other
/// kind are passed over, and without one nothing is asked for.
pub proof fn law_last_clients_parameter_counts(query: Seq<char>, param: Seq<char>, n: nat)
    requires
        !param.contains('&'),
        n <= usize::MAX,
    ensures
        clients_param(Seq::empty()) == 0,
        clients_param("clients="@ + decimal(n)) == n,
        clients_param(query + seq!['&'] + "clients="@ + decimal(n)) == n,
        !starts_with(param, "clients="@) ==> clients_param(param) == 0 && clients_param(
            query + seq!['&'] + param,
        ) == clients_param(query),
        starts_with(param, "clients="@) && parsed_unsigned(param.skip(8), usize::MAX as nat) is None
            ==> clients_param(param) == 0 && clients_param(query + seq!['&'] + param)
            == clients_param(query),
{
    reveal_strlit("clients=");
    let whole = "clients="@ + decimal(n);
    crate::text::law_decimal_notation(n);
    crate::text::law_decimal_is_read_back(n, usize::MAX as nat);
    assert(!whole.contains('&')) by {
        assert forall|i: int| 0 <= i < whole.len() implies whole[i] != '&' by {
            if i >= 8 {
                assert('0' <= decimal(n)[i - 8] <= '9');
            }
        }
    }
    assert(whole.take(8) =~= "clients="@);
    assert(whole.skip(8) =~= decimal(n));
    let none = Seq::<char>::empty();
    lemma_only_parameter(none);
    lemma_only_parameter(whole);
    lemma_only_parameter(param);
    lemma_last_parameter(query, whole);
    lemma_last_parameter(query, param);
    assert(query + seq!['&'] + "clients="@ + decimal(n) =~= query + seq!['&'] + whole);
}

proof fn lemma_only_parameter(param: Seq<char>)
    requires
        !param.contains('&'),
    ensures
        clients_param(param) == match clients_value(param) {
            Some(n) => n,
            None => 0,
        },
{
    crate::text::law_text_without_separator_is_one_field(param, '&');
    assert(seq![param].last() == param);
    assert(seq![param].drop_last() =~= Seq::<Seq<char>>::empty());
    assert(last_clients_value(seq![param].drop_last()) == 0);
}

proof fn lemma_last_parameter(query: Seq<char>, param: Seq<char>)
    requires
        !param.contains('&'),
    ensures
        clients_param(query + seq!['&'] + param) == match clients_value(param) {
            Some(n) => n,
            None => clients_param(query),
        },
{
    crate::text::law_text_without_separator_is_one_field(param, '&');
    crate::text::law_fields_are_concatenated(query, '&', param);
    let fields = split(query, '&') + seq![param];
    assert(fields.last() == param);
    assert(fields.drop_last() =~= split(query, '&'));
}

/// The IDs of a reply are the fields between its commas, in the order in which they were given.
pub proof fn law_id_list_has_a_field_for_each(ids: Seq<i16>)
    requires
        ids.len() > 0,
    ensures
        split(id_list(ids), ',').len() == ids.len(),
        forall|i: int|
            0 <= i < ids.len() ==> #[trigger] split(id_list(ids), ',')[i] == signed_decimal(
                ids[i] as int,
            ),
    decreases ids.len(),
{
    reveal_strlit(",");
    let last = signed_decimal(ids.last() as int);
    crate::text::law_signed_decimal(ids.last() as int, 0);
    crate::text::law_text_without_separator_is_one_field(last, ',');
    if ids.len() > 1 {
        let shorter = ids.drop_last();
        law_id_list_has_a_field_for_each(shorter);
        assert(","@ =~= seq![',']);
        crate::text::law_fields_are_concatenated(id_list(shorter), ',', last);
        assert forall|i: int| 0 <= i < ids.len() implies #[trigger] split(id_list(ids), ',')[i]
            == signed_decimal(ids[i] as int) by {
            if i < shorter.len() {
                assert(split(id_list(shorter), ',')[i] == signed_decimal(shorter[i] as int));
            }
        }
    } else {
        assert(ids[0] == ids.last());
    }
}

/// The status page adds up: the slots that are free and those in use are as many as the service
/// has, unless more are in use than it has.
pub proof fn law_status_adds_up(max_clients: usize, active: nat)
    ensures
        active <= max_clients ==> status_text(max_clients, active) == decimal(
            (max_clients - active) as nat,
        ) + " slots free.\n"@ + decimal(active) + " slots in use.\n"@,
        active > max_clients ==> status_text(max_clients, active) == "0 slots free.\n"@ + decimal(
            active,
        ) + " slots in use.\n"@,
{
    reveal_strlit("0 slots free.\n");
    reveal_strlit(" slots free.\n");
    crate::text::lemma_single_digit(0);
    assert(decimal(0) + " slots free.\n"@ =~= "0 slots free.\n"@);
}

/// The password stands behind the second slash of the path, up to the next one: exactly with the
/// right one, and if there is one, a request is authorized.
pub proof fn law_password_authorizes(given: Seq<char>, rest: Seq<char>, password: Seq<char>)
    requires
        !given.contains('/'),
    ensures
        is_authorized("/maintenance/"@ + given, password) <==> password.len() > 0 && given
            == password,
        is_authorized("/maintenance/"@ + given + seq!['/'] + rest, password) <==> password.len() > 0
            && given == password,
        !is_authorized("/maintenance"@, password),
        is_known_path("/maintenance/"@ + given),
        is_known_path("/status"@),
        is_known_path("/request"@),
{
    reveal_strlit("/maintenance/");
    reveal_strlit("/maintenance");
    reveal_strlit("maintenance");
    let none = Seq::<char>::empty();
    let word = "maintenance"@;
    crate::text::law_text_without_separator_is_one_field(none, '/');
    crate::text::law_text_without_separator_is_one_field(word, '/');
    crate::text::law_text_without_separator_is_one_field(given, '/');
    crate::text::law_fields_are_concatenated(none, '/', word);
    let head = none + seq!['/'] + word;
    assert(head =~= "/maintenance"@);
    assert(split("/maintenance"@, '/').len() == 2);
    crate::text::law_fields_are_concatenated(head, '/', given);
    assert(head + seq!['/'] + given =~= "/maintenance/"@ + given);
    assert(split("/maintenance/"@ + given, '/')[2] == given);
    crate::text::law_fields_are_concatenated("/maintenance/"@ + given, '/', rest);
    assert(split("/maintenance/"@ + given + seq!['/'] + rest, '/')[2] == given);
    crate::text::law_prefixes("/maintenance/"@ + given, "/maintenance/"@, given);
}

/// There is something at a path exactly if it is one of two, or begins with the third.
pub proof fn law_known_paths(path: Seq<char>)
    ensures
        is_known_path(path) <==> path == "/status"@ || path == "/request"@ || starts_with(
            path,
            "/maintenance/"@,
        ),
{
}

/// Clients get their IDs one after the other, each of them the first unused one of the next fifty.
/// Without room or without such an ID, those given out before are given back.
pub proof fn law_clients_get_ids_in_turn(
    source: IdSource,
    used: Set<i16>,
    got: Seq<i16>,
    count: nat,
    room: int,
)
    ensures
        allocation(source, used, got, 0, room) == (Some(got), source),
        room <= 0 ==> allocation(source, used, got, count + 1, room) == (
            None::<Seq<i16>>,
            source.freed_all(got),
        ),
        room > 0 ==> ({
            let (picked, after) = source.pick(used, 50);
            allocation(source, used, got, count + 1, room) == match picked {
                None => (None::<Seq<i16>>, after.freed_all(got)),
                Some(id) => allocation(after, used.insert(id), got.push(id), count, room - 1),
            }
        }),
{
}

/// Clients that got an ID are there from now on, without an address, and time out half a minute
/// after they were made. All the others stay as they are.
pub proof fn law_new_clients_have_half_a_minute(
    clients: Map<i16, ClientState>,
    ids: Seq<i16>,
    clock: MonotonicClock,
    now: u64,
    id: i16,
)
    ensures
        ({
            let after = with_clients(clients, ids, clock, now);
            &&& after.contains_key(id) <==> clients.contains_key(id) || ids.contains(id)
            &&& ids.contains(id) ==> after[id].remote_ep is None && after[id].timeout == 30_000
                && after[id].reference == now && after[id].last_receive == 0 && after[id].clock
                == clock
            &&& clients.contains_key(id) && !ids.contains(id) ==> after[id] == clients[id]
        }),
{
}

/// A request for 2 to 8 clients is answered with as many IDs if there are any to give, and with 503
/// if not, as every request is during maintenance; other requests are refused with 400.
pub proof fn law_game_requests_are_answered(
    maintenance: bool,
    asked: nat,
    granted: Option<Seq<i16>>,
)
    ensures
        ({
            let reply = game_reply(maintenance, asked, granted);
            &&& reply.status == 200 <==> !maintenance && 2 <= asked <= 8 && granted is Some
            &&& reply.status == 400 <==> !maintenance && (asked < 2 || asked > 8)
            &&& reply.status == 503 <==> maintenance || (2 <= asked <= 8 && granted is None)
            &&& reply.header is None
            &&& reply.status != 200 ==> reply.body.len() == 0
            &&& reply.status == 200 ==> reply.body == "["@ + id_list(granted->0) + "]"@
        }),
{
}

/// Every request within the limits is counted as processed. The password enables maintenance mode
/// and nothing else, the status page changes nothing, and a request for clients adds exactly the
/// clients that got an ID: new ones, as many as were asked for.
pub proof fn law_http_requests_are_answered(
    before: V2State,
    received: MetricsSnapshot,
    clients: Map<i16, ClientState>,
    path: Seq<char>,
    query: Seq<char>,
    now: u64,
    reply: crate::http::Reply,
    after: V2State,
    clients_after: Map<i16, ClientState>,
)
    requires
        before.wf(),
        is_known_path(path),
        http_answer(before, received, clients, path, query, now, reply, after, clients_after),
    ensures
        after.counters.http_requests_processed == received.http_requests_processed.wrapping_add(1),
        after.settings == before.settings,
        after.pings == before.pings,
        after.shared_pings == before.shared_pings,
        after.requests == before.requests,
        after.shared_requests == before.shared_requests,
        path == "/status"@ ==> reply.status == 200
            && reply.body == status_text(before.settings.max_clients, clients.len())
            && clients_after == clients && after.ids == before.ids && after.maintenance
            == before.maintenance,
        starts_with(path, "/maintenance/"@) ==> {
            let authorized = is_authorized(path, before.settings.maintenance_password);
            &&& reply.status == 200 <==> authorized
            &&& reply.status == 401 <==> !authorized
            &&& authorized ==> after.maintenance
            &&& !authorized ==> after.maintenance == before.maintenance
            &&& clients_after == clients && after.ids == before.ids
        },
        path == "/request"@ ==> {
            let asked = clients_param(query);
            &&& after.maintenance == before.maintenance
            &&& before.maintenance ==> reply.status == 503 && after.ids == before.ids
            &&& !before.maintenance && (asked < 2 || asked > 8) ==> reply.status == 400 && after.ids
                == before.ids
            &&& reply.status != 200 ==> clients_after == clients && after.counters
                == received.with_http_processed()
            &&& reply.status == 200 ==> exists|ids: Seq<i16>|
                {
                    &&& ids.len() == asked
                    &&& ids.no_duplicates()
                    &&& forall|i: int| 0 <= i < ids.len() ==> ids[i] != 0
                    &&& forall|i: int| 0 <= i < ids.len() ==> !clients.contains_key(ids[i])
                    &&& reply.body == "["@ + #[trigger] id_list(ids) + "]"@
                    &&& clients_after == with_clients(clients, ids, before.clock, now)
                    &&& after.counters.game_slots_allocated
                        == received.game_slots_allocated.wrapping_add(asked as u64)
                    &&& after.counters.active_connections
                        == received.active_connections.wrapping_add(asked as usize)
                }
            &&& !before.maintenance && 2 <= asked <= 8 && clients.len() + asked
                <= before.settings.max_clients && before.ids.apart(clients.dom()) && asked
                <= before.ids.left() ==> reply.status == 200
            &&& clients.len() + asked > before.settings.max_clients ==> reply.status != 200
        },
{
    let asked = clients_param(query);
    let none = Seq::<i16>::empty();
    let room = before.settings.max_clients - clients.len();
    law_allocation_gives_new_ids(before.ids, clients.dom(), none, asked, room);
    if asked > room {
        law_no_allocation_beyond_capacity(before.ids, clients.dom(), none, asked, room);
    } else if before.ids.apart(clients.dom()) && asked <= before.ids.left() {
        law_allocation_succeeds_while_ids_are_left(before.ids, clients.dom(), asked, room);
    }
    reveal_strlit("/status");
    reveal_strlit("/request");
    reveal_strlit("/maintenance/");
    assert("/status"@.len() == 7 && "/request"@.len() == 8 && "/maintenance/"@.len() == 13);
    if path == "/request"@ && reply.status == 200 {
        let granted = allocation(before.ids, clients.dom(), none, asked, room).0;
        assert(granted is Some);
        let ids = granted->0;
        assert(reply.body == "["@ + id_list(ids) + "]"@);
        assert forall|i: int| 0 <= i < ids.len() implies !clients.contains_key(ids[i]) by {
            assert(!clients.dom().contains(ids[i]));
        }
    }
}

} // verus!
