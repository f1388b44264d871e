//! Tunnel V3: UDP tunneling between clients that choose their own IDs.
//!
//! A packet starts with the sender ID and the receiver ID, 32 bits each, little-endian. A packet
//! of 50 bytes with both IDs 0 is a ping. A packet from ID 0 to the largest ID is a command: one
//! byte that says which, and the SHA-1 digest of the maintenance password. Every other packet is
//! forwarded unchanged to the receiver, and connects the sender if it is new.

use vstd::prelude::*;

use vstd::utf8::encode_utf8;

use crate::addr::{is_invalid_source, spec_is_invalid_source, IpAddr, SocketAddr};
use crate::announce::{heartbeat_url, is_heartbeat_url};
use crate::clock::MonotonicClock;
use crate::digest::{is_digest, sha1_digest, sha1_of};
use crate::net::command_blocklist::{
    after_failure, after_lookup, blocked, in_force, Attempts, CommandBlocklist,
};
use crate::net::connection_state::{
    law_add_is_consistent, law_connections_are_counted, law_limit_is_kept,
    law_moving_clients_are_counted, law_remove_is_consistent, law_update_is_consistent, Connections,
    ConnectionState,
};
use crate::net::constants::CLIENT_TIMEOUT;
use crate::net::rate_limiter::{
    limit_reached_at, requested_both, Bucket, IpRateLimiterManager, LimiterPool, MemoryOrdering,
    RateLimiter, RateLimiterConfig,
};
use crate::net::receive_loop::{ReceiveAction, ReceiveEvent};
use crate::net::tunnel_client::{
    is_expired_list, lemma_states_dom, lemma_states_insert, lemma_states_remove, listed_before,
    states, survivors, ClientState, TunnelClient,
};
use crate::packet::{
    copy_of, first_bytes, le_u32, read_le_u32, Datagram, PING_LENGTH, PING_REPLY_LENGTH,
};
use crate::table::{lemma_listing_len, lists, Table};
use crate::text::{chars_of, remove_char, string_of, without};

verus! {

/// The most packets processed at once.
pub const MAX_CONCURRENT_PROCESSING: usize = 2000;

/// The longest packet that is accepted.
pub const MAX_PACKET_SIZE: usize = 1024;

/// The shortest packet that is accepted.
pub const MIN_PACKET_SIZE: usize = 8;

/// The shortest command packet.
pub const COMMAND_LENGTH: usize = 29;

/// Pings that one address may send in an interval.
pub const DEFAULT_MAX_PINGS_PER_IP: usize = 20;

/// Pings that all addresses together may send in an interval.
pub const DEFAULT_MAX_PINGS_GLOBAL: usize = 5000;

/// Commands that one address may send in an interval.
pub const DEFAULT_MAX_COMMANDS_PER_IP: usize = 5;

/// Commands that all addresses together may send in an interval.
pub const DEFAULT_MAX_COMMANDS_GLOBAL: usize = 100;

/// Length of the interval in milliseconds.
pub const DEFAULT_RESET_INTERVAL_MS: u64 = 60_000;

/// Milliseconds after which an address without clients is forgotten.
pub const STALE_CONNECTION_TIMEOUT_MS: u64 = 300_000;

/// Milliseconds to wait for a packet before looking for other work.
pub const UDP_OPERATION_TIMEOUT_MS: u64 = 100;

/// Milliseconds between two reports of the counters.
pub const METRICS_INTERVAL_MS: u64 = 60_000;

/// Milliseconds between two rounds in which expired command blocks are forgotten.
pub const BLOCKLIST_CLEANUP_INTERVAL_MS: u64 = 300_000;

/// Milliseconds between two rounds in which stale addresses are forgotten.
pub const STATE_CLEANUP_INTERVAL_MS: u64 = 60_000;

/// Configuration of the service.
#[derive(Debug, Clone)]
pub struct TunnelV3Config {
    /// Port of the tunnel.
    pub port: u16,
    /// The most clients.
    pub max_clients: usize,
    /// The most clients of one address.
    pub ip_limit: usize,
    /// Name of the server.
    pub name: String,
    /// Whether the master server is not told of this one.
    pub no_master_announce: bool,
    /// Password for the master server.
    pub master_password: String,
    /// Password for commands.
    pub maintenance_password: String,
    /// Address of the master server.
    pub master_server_url: String,
    /// Pings that one address may send in an interval.
    pub max_pings_per_ip: usize,
    /// Pings that all addresses together may send in an interval.
    pub max_pings_global: usize,
    /// Commands that one address may send in an interval.
    pub max_commands_per_ip: usize,
    /// Commands that all addresses together may send in an interval.
    pub max_commands_global: usize,
    /// Length of the interval in milliseconds.
    pub reset_interval_ms: u64,
    /// The most packets processed at once.
    pub max_concurrent_processing: usize,
}

/// What a configuration says.
#[verifier::ext_equal]
pub struct V3Settings {
    pub port: u16,
    pub max_clients: usize,
    pub ip_limit: usize,
    pub name: Seq<char>,
    pub no_master_announce: bool,
    pub master_password: Seq<char>,
    pub maintenance_password: Seq<char>,
    pub master_server_url: Seq<char>,
    pub max_pings_per_ip: usize,
    pub max_pings_global: usize,
    pub max_commands_per_ip: usize,
    pub max_commands_global: usize,
    pub reset_interval_ms: u64,
    pub max_concurrent_processing: usize,
}

impl View for TunnelV3Config {
    type V = V3Settings;

    open spec fn view(&self) -> V3Settings {
        V3Settings {
            port: self.port,
            max_clients: self.max_clients,
            ip_limit: self.ip_limit,
            name: self.name@,
            no_master_announce: self.no_master_announce,
            master_password: self.master_password@,
            maintenance_password: self.maintenance_password@,
            master_server_url: self.master_server_url@,
            max_pings_per_ip: self.max_pings_per_ip,
            max_pings_global: self.max_pings_global,
            max_commands_per_ip: self.max_commands_per_ip,
            max_commands_global: self.max_commands_global,
            reset_interval_ms: self.reset_interval_ms,
            max_concurrent_processing: self.max_concurrent_processing,
        }
    }
}

impl V3Settings {
    /// The settings that apply when nothing else is asked for.
    pub open spec fn defaults() -> V3Settings {
        V3Settings {
            port: 50001,
            max_clients: 200,
            ip_limit: 8,
            name: "Unnamed server"@,
            no_master_announce: false,
            master_password: Seq::empty(),
            maintenance_password: "KUYn3b2z"@,
            master_server_url: "http://cncnet.org/master-announce"@,
            max_pings_per_ip: DEFAULT_MAX_PINGS_PER_IP,
            max_pings_global: DEFAULT_MAX_PINGS_GLOBAL,
            max_commands_per_ip: DEFAULT_MAX_COMMANDS_PER_IP,
            max_commands_global: DEFAULT_MAX_COMMANDS_GLOBAL,
            reset_interval_ms: DEFAULT_RESET_INTERVAL_MS,
            max_concurrent_processing: MAX_CONCURRENT_PROCESSING,
        }
    }

    /// The settings with a port that needs no privileges, room for two clients and for one client
    /// of an address, and a name without semicolons.
    pub open spec fn normalized(self) -> V3Settings {
        V3Settings {
            port: if self.port <= 1024 {
                50001
            } else {
                self.port
            },
            max_clients: if self.max_clients < 2 {
                200
            } else {
                self.max_clients
            },
            ip_limit: if self.ip_limit < 1 {
                8
            } else {
                self.ip_limit
            },
            name: if self.name.len() == 0 {
                "Unnamed server"@
            } else {
                without(self.name, ';')
            },
            ..self
        }
    }

    /// The digest that authorizes a command; without a password there is none.
    pub open spec fn command_digest(self) -> Option<Seq<u8>> {
        if self.maintenance_password.len() == 0 {
            None
        } else {
            Some(sha1_digest(encode_utf8(self.maintenance_password)))
        }
    }
}

impl Default for TunnelV3Config {
    /// The settings that apply when nothing else is asked for.
    fn default() -> (config: Self)
        ensures
            config@ == V3Settings::defaults(),
    {
        let config = TunnelV3Config {
            port: 50001,
            max_clients: 200,
            ip_limit: 8,
            name: "Unnamed server".to_owned(),
            no_master_announce: false,
            master_password: String::new(),
            maintenance_password: "KUYn3b2z".to_owned(),
            master_server_url: "http://cncnet.org/master-announce".to_owned(),
            max_pings_per_ip: DEFAULT_MAX_PINGS_PER_IP,
            max_pings_global: DEFAULT_MAX_PINGS_GLOBAL,
            max_commands_per_ip: DEFAULT_MAX_COMMANDS_PER_IP,
            max_commands_global: DEFAULT_MAX_COMMANDS_GLOBAL,
            reset_interval_ms: DEFAULT_RESET_INTERVAL_MS,
            max_concurrent_processing: MAX_CONCURRENT_PROCESSING,
        };
        config
    }
}

impl TunnelV3Config {
    /// Brings the settings into the accepted range.
    pub fn normalize(self) -> (config: Self)
        ensures
            config@ == self@.normalized(),
    {
        let mut config = self;
        if config.port <= 1024 {
            config.port = 50001;
        }
        if config.max_clients < 2 {
            config.max_clients = 200;
        }
        if config.ip_limit < 1 {
            config.ip_limit = 8;
        }
        if config.name.as_str().is_empty() {
            config.name = "Unnamed server".to_owned();
        } else {
            config.name = string_of(&remove_char(&chars_of(config.name.as_str()), ';'));
        }
        config
    }
}

/// Settings that have been brought into the accepted range stay as they are, unless the name was
/// made of nothing but semicolons: it then becomes the default name the second time.
pub proof fn law_normalization_is_idempotent(settings: V3Settings)
    requires
        settings.name.len() > 0 ==> without(settings.name, ';').len() > 0,
    ensures
        settings.normalized().normalized() == settings.normalized(),
{
    crate::text::lemma_default_name_is_kept();
    crate::text::lemma_without_is_idempotent(settings.name, ';');
}

/// Counters of the service. They start over when they have reached their largest value.
#[derive(Debug, Clone, Copy, PartialEq, Eq, Structural)]
pub struct ServiceMetrics {
    pub packets_received: u64,
    pub packets_processed: u64,
    pub packets_dropped: u64,
    pub packets_tunneled: u64,
    pub connections_created: u64,
    pub connections_rejected: u64,
    pub active_connections: usize,
    pub failed_commands: u64,
}

impl ServiceMetrics {
    /// Nothing has been counted.
    pub open spec fn zero() -> ServiceMetrics {
        ServiceMetrics {
            packets_received: 0,
            packets_processed: 0,
            packets_dropped: 0,
            packets_tunneled: 0,
            connections_created: 0,
            connections_rejected: 0,
            active_connections: 0,
            failed_commands: 0,
        }
    }

    /// Nothing has been counted.
    pub fn new() -> (metrics: Self)
        ensures
            metrics == ServiceMetrics::zero(),
    {
        ServiceMetrics {
            packets_received: 0,
            packets_processed: 0,
            packets_dropped: 0,
            packets_tunneled: 0,
            connections_created: 0,
            connections_rejected: 0,
            active_connections: 0,
            failed_commands: 0,
        }
    }

    pub open spec fn with_received(self) -> ServiceMetrics {
        ServiceMetrics { packets_received: self.packets_received.wrapping_add(1), ..self }
    }

    pub open spec fn with_processed(self) -> ServiceMetrics {
        ServiceMetrics { packets_processed: self.packets_processed.wrapping_add(1), ..self }
    }

    pub open spec fn with_dropped(self) -> ServiceMetrics {
        ServiceMetrics { packets_dropped: self.packets_dropped.wrapping_add(1), ..self }
    }

    pub open spec fn with_tunneled(self) -> ServiceMetrics {
        ServiceMetrics { packets_tunneled: self.packets_tunneled.wrapping_add(1), ..self }
    }

    pub open spec fn with_created(self) -> ServiceMetrics {
        ServiceMetrics {
            connections_created: self.connections_created.wrapping_add(1),
            active_connections: self.active_connections.wrapping_add(1),
            ..self
        }
    }

    pub open spec fn with_rejected(self) -> ServiceMetrics {
        ServiceMetrics { connections_rejected: self.connections_rejected.wrapping_add(1), ..self }
    }

    pub open spec fn with_failed_command(self) -> ServiceMetrics {
        ServiceMetrics { failed_commands: self.failed_commands.wrapping_add(1), ..self }
    }

    pub open spec fn without_connections(self, count: usize) -> ServiceMetrics {
        ServiceMetrics { active_connections: self.active_connections.wrapping_sub(count), ..self }
    }
}

/// State of the service.
pub struct V3State {
    pub settings: V3Settings,
    /// The digest that authorizes a command.
    pub command_digest: Option<Seq<u8>>,
    /// Ping limits of each address.
    pub pings: LimiterPool,
    /// Ping limit of all addresses together.
    pub shared_pings: Bucket,
    /// Command limits of each address.
    pub commands: LimiterPool,
    /// Command limit of all addresses together.
    pub shared_commands: Bucket,
    pub maintenance: bool,
    pub counters: ServiceMetrics,
    /// Failed commands.
    pub blocklist: Map<crate::addr::IpKey, Attempts>,
    /// The clock that times are read from.
    pub clock: MonotonicClock,
}

/// A limit of `max` tokens that is restored every `interval_ms` milliseconds.
pub open spec fn limit_config(
    max: usize,
    interval_ms: u64,
    ordering: MemoryOrdering,
) -> RateLimiterConfig {
    RateLimiterConfig {
        max_tokens: max as u32,
        refill_rate: max as u32,
        refill_interval_ms: interval_ms,
        ordering,
    }
}

impl V3State {
    /// The state when the service starts, when `clock` reads `now`.
    pub open spec fn initial(
        settings: V3Settings,
        command_digest: Option<Seq<u8>>,
        clock: MonotonicClock,
        now: u64,
    ) -> V3State {
        let interval = settings.reset_interval_ms;
        V3State {
            settings,
            command_digest,
            pings: LimiterPool::fresh(
                limit_config(settings.max_pings_per_ip, interval, MemoryOrdering::Relaxed),
                clock,
            ),
            shared_pings: Bucket::full(
                limit_config(settings.max_pings_global, interval, MemoryOrdering::Relaxed),
                clock,
                now,
            ),
            commands: LimiterPool::fresh(
                limit_config(settings.max_commands_per_ip, interval, MemoryOrdering::Sequential),
                clock,
            ),
            shared_commands: Bucket::full(
                limit_config(settings.max_commands_global, interval, MemoryOrdering::Sequential),
                clock,
                now,
            ),
            maintenance: false,
            counters: ServiceMetrics::zero(),
            blocklist: Map::empty(),
            clock,
        }
    }

    pub open spec fn wf(self) -> bool {
        &&& self.pings.wf()
        &&& self.pings.clock == self.clock
        &&& self.shared_pings.wf()
        &&& self.shared_pings.clock == self.clock
        &&& self.commands.wf()
        &&& self.commands.clock == self.clock
        &&& self.shared_commands.wf()
        &&& self.shared_commands.clock == self.clock
    }

    /// Each address may send at least one ping.
    pub open spec fn takes_pings(self) -> bool {
        self.pings.config.valid()
    }

    /// Each address may send at least one command.
    pub open spec fn takes_commands(self) -> bool {
        self.commands.config.valid()
    }

    pub open spec fn count(self, counters: ServiceMetrics) -> V3State {
        V3State { counters, ..self }
    }
}

/// What the receive loop does next, and the counters afterwards.
pub open spec fn receive_step(
    counters: ServiceMetrics,
    event: ReceiveEvent,
) -> (ReceiveAction, ServiceMetrics) {
    match event {
        ReceiveEvent::Shutdown => (ReceiveAction::Stop, counters),
        ReceiveEvent::Packet(size) => if MIN_PACKET_SIZE <= size <= MAX_PACKET_SIZE {
            (ReceiveAction::AskPermit, counters.with_received())
        } else {
            (ReceiveAction::Wait, counters.with_received().with_dropped())
        },
        ReceiveEvent::Permit(free) => if free {
            (ReceiveAction::Process, counters)
        } else {
            (ReceiveAction::Wait, counters.with_dropped())
        },
        ReceiveEvent::Failed => (ReceiveAction::Wait, counters),
        ReceiveEvent::TimedOut => (ReceiveAction::Wait, counters),
    }
}

/// The sender ID and the receiver ID of a packet.
pub open spec fn packet_ids(data: Seq<u8>) -> (u32, u32) {
    (le_u32(data[0], data[1], data[2], data[3]), le_u32(data[4], data[5], data[6], data[7]))
}

/// A packet that is worth looking at: not from a client to itself, and not from an impossible
/// address.
pub open spec fn valid_packet(sender: u32, receiver: u32, addr: SocketAddr) -> bool {
    !(sender == receiver && sender != 0) && !spec_is_invalid_source(addr)
}

/// The clients of the service, their connections by address, and the counters.
pub struct Traffic {
    pub clients: Map<u32, ClientState>,
    pub connections: Connections,
    pub counters: ServiceMetrics,
}

/// What decides on the packets of a client: the limits, whether the service is in maintenance
/// mode, the clock and its reading, and the Unix time in milliseconds.
pub struct Terms {
    pub max_clients: usize,
    pub ip_limit: usize,
    pub maintenance: bool,
    pub clock: MonotonicClock,
    pub now: u64,
    pub unix_ms: u64,
}

impl Traffic {
    /// Whether a packet of `sender` from `addr` is accepted.
    ///
    /// A known client is accepted at its own address. At another address it is accepted only once
    /// it has timed out, outside of maintenance mode and within the limit of that address. A new
    /// client is accepted outside of maintenance mode, within the limit of all clients and that
    /// of its address.
    pub open spec fn accepts(self, sender: u32, addr: SocketAddr, terms: Terms) -> bool {
        let ip = addr.ip.spec_key();
        if self.clients.contains_key(sender) {
            match self.clients[sender].remote_ep {
                None => true,
                Some(endpoint) => endpoint == addr || (!terms.maintenance
                    && self.clients[sender].timed_out(terms.now) && self.connections.accepts(
                    sender,
                    ip,
                    terms.ip_limit,
                )),
            }
        } else {
            self.clients.len() < terms.max_clients && !terms.maintenance && self.connections.count(
                ip,
            ) < terms.ip_limit
        }
    }

    /// The client that a packet of `sender` from `addr` belongs to, after it has been accepted.
    pub open spec fn accepted_client(
        self,
        sender: u32,
        addr: SocketAddr,
        terms: Terms,
    ) -> ClientState {
        let known = if self.clients.contains_key(sender) {
            if self.clients[sender].remote_ep is Some && self.clients[sender].remote_ep != Some(
                addr,
            ) {
                self.clients[sender].measured(terms.now)
            } else {
                self.clients[sender]
            }
        } else {
            ClientState::fresh(CLIENT_TIMEOUT, terms.clock, terms.now)
        };
        ClientState { remote_ep: Some(addr), ..known }.heard(terms.now)
    }

    /// The connections after a packet of `sender` from `addr`.
    pub open spec fn connections_after(
        self,
        sender: u32,
        addr: SocketAddr,
        terms: Terms,
    ) -> Connections {
        let ip = addr.ip.spec_key();
        if self.clients.contains_key(sender) {
            if self.clients[sender].remote_ep is Some && self.clients[sender].remote_ep != Some(
                addr,
            ) && !terms.maintenance && self.clients[sender].timed_out(terms.now) {
                self.connections.after_update(sender, ip, terms.ip_limit, terms.unix_ms)
            } else {
                self.connections
            }
        } else if self.clients.len() < terms.max_clients && !terms.maintenance {
            self.connections.after_add(sender, ip, terms.ip_limit, terms.unix_ms)
        } else {
            self.connections
        }
    }

    /// The traffic after a packet of `sender` from `addr`.
    pub open spec fn after(self, sender: u32, addr: SocketAddr, terms: Terms) -> Traffic {
        if self.accepts(sender, addr, terms) {
            Traffic {
                clients: self.clients.insert(
                    sender,
                    self.accepted_client(sender, addr, terms),
                ),
                connections: self.connections_after(sender, addr, terms),
                counters: if self.clients.contains_key(sender) {
                    self.counters
                } else {
                    self.counters.with_created()
                },
            }
        } else {
            Traffic {
                clients: if self.clients.contains_key(sender) {
                    self.clients.insert(sender, self.clients[sender].measured(terms.now))
                } else {
                    self.clients
                },
                connections: self.connections_after(sender, addr, terms),
                counters: self.counters.with_rejected(),
            }
        }
    }

    /// Where a packet for `receiver` from `addr` goes: to the address of the receiver, but never
    /// back to where it came from.
    pub open spec fn forward_to(self, receiver: u32, addr: SocketAddr) -> Option<SocketAddr> {
        if self.clients.contains_key(receiver) && self.clients[receiver].remote_ep != Some(addr) {
            self.clients[receiver].remote_ep
        } else {
            None
        }
    }

    /// Where a packet of `sender` from `addr` for `receiver` goes.
    pub open spec fn destination(
        self,
        sender: u32,
        receiver: u32,
        addr: SocketAddr,
        terms: Terms,
    ) -> Option<SocketAddr> {
        if self.accepts(sender, addr, terms) {
            self.after(sender, addr, terms).forward_to(receiver, addr)
        } else {
            None
        }
    }

    /// Every client is connected from the address that it sends from, and the connections are
    /// counted right.
    pub open spec fn coherent(self) -> bool {
        &&& self.connections.consistent()
        &&& self.connections.clients.dom() == self.clients.dom()
        &&& forall|id: u32| #[trigger]
            self.clients.contains_key(id) ==> (self.clients[id].remote_ep matches Some(endpoint)
                && self.connections.clients[id] == endpoint.ip.spec_key())
    }
}

/// Tunnel V3 service.
pub struct TunnelV3 {
    config: TunnelV3Config,
    maintenance_password_sha1: Option<[u8; 20]>,
    ping_manager: IpRateLimiterManager,
    global_ping_limiter: RateLimiter,
    command_manager: IpRateLimiterManager,
    global_command_limiter: RateLimiter,
    maintenance_mode: bool,
    metrics: ServiceMetrics,
    command_blocklist: CommandBlocklist,
    clock: MonotonicClock,
}

/// The bytes of a digest, if there is one.
pub open spec fn digest_bytes(digest: Option<[u8; 20]>) -> Option<Seq<u8>> {
    match digest {
        Some(bytes) => Some(bytes@),
        None => None,
    }
}

impl View for TunnelV3 {
    type V = V3State;

    closed spec fn view(&self) -> V3State {
        V3State {
            settings: self.config@,
            command_digest: digest_bytes(self.maintenance_password_sha1),
            pings: self.ping_manager@,
            shared_pings: self.global_ping_limiter@,
            commands: self.command_manager@,
            shared_commands: self.global_command_limiter@,
            maintenance: self.maintenance_mode,
            counters: self.metrics,
            blocklist: self.command_blocklist@,
            clock: self.clock,
        }
    }
}

impl TunnelV3 {
    /// A service with the given configuration, brought into the accepted range.
    pub fn with_config(config: TunnelV3Config) -> (service: Self)
        requires
            config.max_pings_global as u32 > 0,
            config.max_commands_global as u32 > 0,
            config.reset_interval_ms > 0,
        ensures
            service@ == V3State::initial(config@.normalized(), config@.command_digest(), service@.clock, 0),
            service@.wf(),
    {
        let digest: Option<[u8; 20]> = if config.maintenance_password.as_str().is_empty() {
            None
        } else {
            Some(sha1_of(config.maintenance_password.as_str().as_bytes()))
        };
        TunnelV3::with_password_digest(config, digest)
    }

    /// A service with the given configuration, brought into the accepted range, whose commands
    /// are authorized by the given digest.
    pub fn with_password_digest(config: TunnelV3Config, digest: Option<[u8; 20]>) -> (service: Self)
        requires
            config.max_pings_global as u32 > 0,
            config.max_commands_global as u32 > 0,
            config.reset_interval_ms > 0,
        ensures
            service@ == V3State::initial(config@.normalized(), digest_bytes(digest), service@.clock, 0),
            service@.wf(),
    {
        let config = config.normalize();
        let clock = MonotonicClock::start();
        let interval: u64 = config.reset_interval_ms;
        TunnelV3 {
            maintenance_password_sha1: digest,
            ping_manager: IpRateLimiterManager::with_clock(
                Self::limit(config.max_pings_per_ip, interval, MemoryOrdering::Relaxed),
                clock,
            ),
            global_ping_limiter: RateLimiter::with_clock(
                Self::limit(config.max_pings_global, interval, MemoryOrdering::Relaxed),
                clock,
                0,
            ),
            command_manager: IpRateLimiterManager::with_clock(
                Self::limit(config.max_commands_per_ip, interval, MemoryOrdering::Sequential),
                clock,
            ),
            global_command_limiter: RateLimiter::with_clock(
                Self::limit(config.max_commands_global, interval, MemoryOrdering::Sequential),
                clock,
                0,
            ),
            config,
            maintenance_mode: false,
            metrics: ServiceMetrics::new(),
            command_blocklist: CommandBlocklist::new(),
            clock,
        }
    }

    fn limit(max: usize, interval_ms: u64, ordering: MemoryOrdering) -> (config: RateLimiterConfig)
        ensures
            config == limit_config(max, interval_ms, ordering),
    {
        RateLimiterConfig {
            max_tokens: max as u32,
            refill_rate: max as u32,
            refill_interval_ms: interval_ms,
            ordering,
        }
    }

    /// A service with the default configuration but for what is given.
    pub fn new(
        port: u16,
        max_clients: usize,
        name: String,
        no_master_announce: bool,
        master_password: String,
        maintenance_password: String,
        master_server_url: String,
        ip_limit: usize,
    ) -> (service: Self)
        ensures
            ({
                let settings = V3Settings {
                    port,
                    max_clients,
                    name: name@,
                    no_master_announce,
                    master_password: master_password@,
                    maintenance_password: maintenance_password@,
                    master_server_url: master_server_url@,
                    ip_limit,
                    ..V3Settings::defaults()
                };
                service@ == V3State::initial(
                    settings.normalized(),
                    settings.command_digest(),
                    service@.clock,
                    0,
                )
            }),
            service@.wf(),
            service@.takes_pings(),
            service@.takes_commands(),
    {
        let config = TunnelV3Config::default();
        TunnelV3::with_config(
            TunnelV3Config {
                port,
                max_clients,
                name,
                no_master_announce,
                master_password,
                maintenance_password,
                master_server_url,
                ip_limit,
                ..config
            },
        )
    }

    /// The configuration in force.
    pub fn config(&self) -> (config: &TunnelV3Config)
        ensures
            config@ == self@.settings,
    {
        &self.config
    }

    /// Milliseconds since the service was set up.
    pub fn now_ms(&self) -> (ms: u64)
        ensures
            exists|at: std::time::Instant| ms == #[trigger] self@.clock.reading(at),
    {
        assert(self@.clock == self.clock);
        self.clock.now_ms()
    }

    /// Whether the service is in maintenance mode.
    pub fn maintenance_mode(&self) -> (on: bool)
        ensures
            on == self@.maintenance,
    {
        self.maintenance_mode
    }

    fn count_received(&mut self)
        ensures
            final(self)@ == old(self)@.count(old(self)@.counters.with_received()),
    {
        self.metrics.packets_received = self.metrics.packets_received.wrapping_add(1);
    }

    fn count_processed(&mut self)
        ensures
            final(self)@ == old(self)@.count(old(self)@.counters.with_processed()),
    {
        self.metrics.packets_processed = self.metrics.packets_processed.wrapping_add(1);
    }

    fn count_dropped(&mut self)
        ensures
            final(self)@ == old(self)@.count(old(self)@.counters.with_dropped()),
    {
        self.metrics.packets_dropped = self.metrics.packets_dropped.wrapping_add(1);
    }

    fn count_rejected(&mut self)
        ensures
            final(self)@ == old(self)@.count(old(self)@.counters.with_rejected()),
    {
        self.metrics.connections_rejected = self.metrics.connections_rejected.wrapping_add(1);
    }

    fn count_created(&mut self)
        ensures
            final(self)@ == old(self)@.count(old(self)@.counters.with_created()),
    {
        self.metrics.connections_created = self.metrics.connections_created.wrapping_add(1);
        self.metrics.active_connections = self.metrics.active_connections.wrapping_add(1);
    }

    /// Records that a datagram has been sent to `to` for a packet from `from`, or could not be.
    /// Those that go elsewhere are counted; the others answer pings.
    pub fn on_sent(&mut self, from: &SocketAddr, to: &SocketAddr, sent: bool)
        ensures
            final(self)@ == if sent && *to != *from {
                old(self)@.count(old(self)@.counters.with_tunneled())
            } else {
                old(self)@
            },
    {
        if sent && *to != *from {
            self.metrics.packets_tunneled = self.metrics.packets_tunneled.wrapping_add(1);
        }
    }

    /// Decides what the receive loop does next.
    pub fn on_event(&mut self, event: ReceiveEvent) -> (action: ReceiveAction)
        ensures
            action == receive_step(old(self)@.counters, event).0,
            final(self)@ == old(self)@.count(receive_step(old(self)@.counters, event).1),
    {
        match event {
            ReceiveEvent::Shutdown => ReceiveAction::Stop,
            ReceiveEvent::Packet(size) => {
                self.count_received();
                if size < MIN_PACKET_SIZE || size > MAX_PACKET_SIZE {
                    self.count_dropped();
                    ReceiveAction::Wait
                } else {
                    ReceiveAction::AskPermit
                }
            },
            ReceiveEvent::Permit(free) => {
                if free {
                    ReceiveAction::Process
                } else {
                    self.count_dropped();
                    ReceiveAction::Wait
                }
            },
            ReceiveEvent::Failed => ReceiveAction::Wait,
            ReceiveEvent::TimedOut => ReceiveAction::Wait,
        }
    }

    /// Whether a packet is worth looking at.
    pub fn is_valid_packet(&self, sender_id: u32, receiver_id: u32, addr: &SocketAddr) -> (valid:
        bool)
        ensures
            valid == valid_packet(sender_id, receiver_id, *addr),
    {
        if sender_id == receiver_id && sender_id != 0 {
            return false;
        }
        !is_invalid_source(addr)
    }

    /// Handles a packet from one client to another, with the clock at `now` and at Unix time
    /// `unix_ms`. Comes back with the datagram that is to be sent: the packet itself, to the
    /// address of the receiver.
    pub fn handle_tunnel_traffic_at(
        &mut self,
        sender_id: u32,
        receiver_id: u32,
        data: &[u8],
        remote_addr: SocketAddr,
        mappings: &mut Table<u32, TunnelClient>,
        connection_state: &mut ConnectionState,
        now: u64,
        unix_ms: u64,
    ) -> (reply: Option<Datagram>)
        ensures
            ({
                let before = Traffic {
                    clients: states(old(mappings)@),
                    connections: old(connection_state)@,
                    counters: old(self)@.counters,
                };
                let terms = Terms {
                    max_clients: old(self)@.settings.max_clients,
                    ip_limit: old(self)@.settings.ip_limit,
                    maintenance: old(self)@.maintenance,
                    clock: old(self)@.clock,
                    now,
                    unix_ms,
                };
                let after = before.after(sender_id, remote_addr, terms);
                let to = before.destination(sender_id, receiver_id, remote_addr, terms);
                &&& states(final(mappings)@) == after.clients
                &&& final(connection_state)@ == after.connections
                &&& final(self)@ == old(self)@.count(after.counters)
                &&& reply is Some == to is Some
                &&& reply matches Some(datagram) ==> datagram.payload@ == data@ && Some(
                    datagram.to,
                ) == to
            }),
    {
        proof {
            lemma_states_dom(mappings@);
        }
        let ghost clients = states(mappings@);
        match mappings.get(&sender_id) {
            Some(found) => {
                let mut sender = found;
                match sender.endpoint() {
                    Some(endpoint) => {
                        if endpoint != remote_addr {
                            let was_timed_out = sender.is_timed_out_at(now);
                            let mut accepted = false;
                            if !self.maintenance_mode && was_timed_out {
                                accepted = connection_state.update_connection_at(
                                    sender_id,
                                    remote_addr.ip,
                                    self.config.ip_limit,
                                    unix_ms,
                                );
                            }
                            if !accepted {
                                proof {
                                    lemma_states_insert(mappings@, sender_id, sender);
                                }
                                mappings.insert(sender_id, sender);
                                self.count_rejected();
                                return None;
                            }
                            sender.set_endpoint(remote_addr);
                        }
                    },
                    None => {
                        sender.set_endpoint(remote_addr);
                    },
                }
                sender.update_last_receive_at(now);
                proof {
                    lemma_states_insert(mappings@, sender_id, sender);
                }
                mappings.insert(sender_id, sender);
            },
            None => {
                if mappings.len() >= self.config.max_clients {
                    self.count_rejected();
                    return None;
                }
                if self.maintenance_mode {
                    self.count_rejected();
                    return None;
                }
                if !connection_state.try_add_connection_at(
                    sender_id,
                    remote_addr.ip,
                    self.config.ip_limit,
                    unix_ms,
                ) {
                    self.count_rejected();
                    return None;
                }
                let mut client = TunnelClient::with_clock(CLIENT_TIMEOUT, self.clock, now);
                client.set_endpoint(remote_addr);
                client.update_last_receive_at(now);
                proof {
                    lemma_states_insert(mappings@, sender_id, client);
                }
                mappings.insert(sender_id, client);
                self.count_created();
            },
        }
        proof {
            lemma_states_dom(mappings@);
        }
        if let Some(receiver) = mappings.get(&receiver_id) {
            if let Some(receiver_ep) = receiver.endpoint() {
                if receiver_ep != remote_addr {
                    return Some(Datagram { payload: copy_of(data), to: receiver_ep });
                }
            }
        }
        None
    }
}

/// A command from `ip` with the given password digest turns `before` into `after`.
///
/// Nothing is done for an address that is blocked or has sent too many commands, or if there is
/// no password. A wrong digest is a failed attempt. Command 0 toggles maintenance mode; no other
/// command is known.
pub open spec fn command_executed(
    before: V3State,
    after: V3State,
    command: u8,
    digest: Seq<u8>,
    ip: crate::addr::IpKey,
    now: u64,
    unix_secs: u64,
) -> bool {
    let looked_up = V3State {
        blocklist: after_lookup(before.blocklist, ip, unix_secs),
        ..before
    };
    if blocked(before.blocklist, ip, unix_secs) {
        after == looked_up
    } else {
        exists|refused: bool| #[trigger]
            requested_both(
                before.commands,
                after.commands,
                before.shared_commands,
                after.shared_commands,
                ip,
                now,
                refused,
            ) && ({
                let admitted = V3State {
                    commands: after.commands,
                    shared_commands: after.shared_commands,
                    ..looked_up
                };
                if refused || before.command_digest is None {
                    after == admitted
                } else if before.command_digest != Some(digest) {
                    after == (V3State {
                        blocklist: after_failure(looked_up.blocklist, ip, unix_secs),
                        ..admitted
                    }).count(before.counters.with_failed_command())
                } else if command == 0 {
                    after == (V3State { maintenance: !before.maintenance, ..admitted })
                } else {
                    after == admitted
                }
            })
    }
}

/// What a packet that is a ping leads to: the state afterwards, and whether it is answered.
pub open spec fn pinged(
    before: V3State,
    after: V3State,
    length: nat,
    ip: crate::addr::IpKey,
    now: u64,
    answered: bool,
) -> bool {
    if length == PING_LENGTH {
        &&& requested_both(
            before.pings,
            after.pings,
            before.shared_pings,
            after.shared_pings,
            ip,
            now,
            !answered,
        )
        &&& after == (V3State {
            pings: after.pings,
            shared_pings: after.shared_pings,
            ..before
        }).count(
            if answered {
                before.counters.with_processed()
            } else {
                before.counters.with_dropped().with_processed()
            },
        )
    } else {
        !answered && after == before.count(before.counters.with_processed())
    }
}

impl TunnelV3 {
    /// Whether `ip` has sent as many pings as it may, with the clock at `now`. Counts one more.
    pub fn ping_limit_reached_at(&mut self, ip: IpAddr, now: u64) -> (reached: bool)
        requires
            old(self)@.wf(),
            old(self)@.takes_pings(),
        ensures
            final(self)@.wf(),
            final(self)@.takes_pings(),
            requested_both(
                old(self)@.pings,
                final(self)@.pings,
                old(self)@.shared_pings,
                final(self)@.shared_pings,
                ip.spec_key(),
                now,
                reached,
            ),
            final(self)@ == (V3State {
                pings: final(self)@.pings,
                shared_pings: final(self)@.shared_pings,
                ..old(self)@
            }),
    {
        limit_reached_at(&mut self.ping_manager, &mut self.global_ping_limiter, ip, now)
    }

    /// Whether `ip` has sent as many pings as it may. Counts one more.
    pub fn ping_limit_reached(&mut self, ip: IpAddr) -> (reached: bool)
        requires
            old(self)@.wf(),
            old(self)@.takes_pings(),
        ensures
            final(self)@.wf(),
            final(self)@.takes_pings(),
            exists|at: std::time::Instant|
                requested_both(
                    old(self)@.pings,
                    final(self)@.pings,
                    old(self)@.shared_pings,
                    final(self)@.shared_pings,
                    ip.spec_key(),
                    #[trigger] old(self)@.clock.reading(at),
                    reached,
                ),
            final(self)@ == (V3State {
                pings: final(self)@.pings,
                shared_pings: final(self)@.shared_pings,
                ..old(self)@
            }),
    {
        let now: u64 = self.clock.now_ms();
        self.ping_limit_reached_at(ip, now)
    }

    /// Whether `ip` has sent as many commands as it may, with the clock at `now`. Counts one more.
    pub fn command_limit_reached_at(&mut self, ip: IpAddr, now: u64) -> (reached: bool)
        requires
            old(self)@.wf(),
            old(self)@.takes_commands(),
        ensures
            final(self)@.wf(),
            final(self)@.takes_commands(),
            requested_both(
                old(self)@.commands,
                final(self)@.commands,
                old(self)@.shared_commands,
                final(self)@.shared_commands,
                ip.spec_key(),
                now,
                reached,
            ),
            final(self)@ == (V3State {
                commands: final(self)@.commands,
                shared_commands: final(self)@.shared_commands,
                ..old(self)@
            }),
    {
        limit_reached_at(&mut self.command_manager, &mut self.global_command_limiter, ip, now)
    }

    /// Whether `ip` has sent as many commands as it may. Counts one more.
    pub fn command_limit_reached(&mut self, ip: IpAddr) -> (reached: bool)
        requires
            old(self)@.wf(),
            old(self)@.takes_commands(),
        ensures
            final(self)@.wf(),
            final(self)@.takes_commands(),
            exists|at: std::time::Instant|
                requested_both(
                    old(self)@.commands,
                    final(self)@.commands,
                    old(self)@.shared_commands,
                    final(self)@.shared_commands,
                    ip.spec_key(),
                    #[trigger] old(self)@.clock.reading(at),
                    reached,
                ),
            final(self)@ == (V3State {
                commands: final(self)@.commands,
                shared_commands: final(self)@.shared_commands,
                ..old(self)@
            }),
    {
        let now: u64 = self.clock.now_ms();
        self.command_limit_reached_at(ip, now)
    }

    /// Executes a command that comes with a password digest, with the clock at `now` and at Unix
    /// time `unix_secs` in seconds.
    pub fn execute_command_at(
        &mut self,
        command: u8,
        data: &[u8],
        source_ip: IpAddr,
        now: u64,
        unix_secs: u64,
    )
        requires
            old(self)@.wf(),
            old(self)@.takes_commands(),
        ensures
            final(self)@.wf(),
            final(self)@.takes_commands(),
            command_executed(
                old(self)@,
                final(self)@,
                command,
                data@,
                source_ip.spec_key(),
                now,
                unix_secs,
            ),
    {
        if self.command_blocklist.is_blocked_at(source_ip, unix_secs) {
            return;
        }
        if self.command_limit_reached_at(source_ip, now) {
            return;
        }
        match self.maintenance_password_sha1 {
            None => {
                return;
            },
            Some(expected) => {
                if !is_digest(data, &expected) {
                    self.command_blocklist.record_failure_at(source_ip, unix_secs);
                    self.metrics.failed_commands = self.metrics.failed_commands.wrapping_add(1);
                    return;
                }
            },
        }
        if command == 0 {
            self.maintenance_mode = !self.maintenance_mode;
        }
    }

    /// Handles a received packet, with the clock at `now` and at Unix time `unix_ms`. Comes back
    /// with the datagram that is to be sent: the start of a ping, or the packet itself for its
    /// receiver.
    pub fn on_receive_at(
        &mut self,
        data: &[u8],
        remote_addr: SocketAddr,
        mappings: &mut Table<u32, TunnelClient>,
        connection_state: &mut ConnectionState,
        now: u64,
        unix_ms: u64,
    ) -> (reply: Option<Datagram>)
        requires
            old(self)@.wf(),
            data@.len() >= MIN_PACKET_SIZE,
            packet_ids(data@) == (0u32, 0u32) && data@.len() == PING_LENGTH && valid_packet(
                0,
                0,
                remote_addr,
            ) ==> old(self)@.takes_pings(),
            packet_ids(data@) == (0u32, u32::MAX) && data@.len() >= COMMAND_LENGTH
                ==> old(self)@.takes_commands(),
        ensures
            final(self)@.wf(),
            final(self)@.takes_pings() == old(self)@.takes_pings(),
            final(self)@.takes_commands() == old(self)@.takes_commands(),
            ({
                let (sender, receiver) = packet_ids(data@);
                let before = old(self)@;
                let after = final(self)@;
                let idle = states(final(mappings)@) == states(old(mappings)@)
                    && final(connection_state)@ == old(connection_state)@;
                if sender == 0 && receiver == u32::MAX && data@.len() >= COMMAND_LENGTH {
                    &&& command_executed(
                        before,
                        after,
                        data@[8],
                        data@.subrange(9, COMMAND_LENGTH as int),
                        remote_addr.ip.spec_key(),
                        now,
                        unix_ms / 1000,
                    )
                    &&& idle
                    &&& reply is None
                } else if sender == 0 && receiver != 0 {
                    after == before && idle && reply is None
                } else if !valid_packet(sender, receiver, remote_addr) {
                    &&& after == before.count(before.counters.with_dropped())
                    &&& idle
                    &&& reply is None
                } else if sender == 0 {
                    &&& pinged(
                        before,
                        after,
                        data@.len(),
                        remote_addr.ip.spec_key(),
                        now,
                        reply is Some,
                    )
                    &&& idle
                    &&& reply matches Some(datagram) ==> datagram.payload@ == data@.take(
                        PING_REPLY_LENGTH as int,
                    ) && datagram.to == remote_addr
                } else {
                    let traffic = Traffic {
                        clients: states(old(mappings)@),
                        connections: old(connection_state)@,
                        counters: before.counters,
                    };
                    let terms = Terms {
                        max_clients: before.settings.max_clients,
                        ip_limit: before.settings.ip_limit,
                        maintenance: before.maintenance,
                        clock: before.clock,
                        now,
                        unix_ms,
                    };
                    let traffic_after = traffic.after(sender, remote_addr, terms);
                    let to = traffic.destination(sender, receiver, remote_addr, terms);
                    &&& states(final(mappings)@) == traffic_after.clients
                    &&& final(connection_state)@ == traffic_after.connections
                    &&& after == before.count(traffic_after.counters.with_processed())
                    &&& reply is Some == to is Some
                    &&& reply matches Some(datagram) ==> datagram.payload@ == data@ && Some(
                        datagram.to,
                    ) == to
                }
            }),
            packet_ids(data@) == (0u32, 0u32) ==> (reply matches Some(datagram) ==> data@.len() == 50
                && datagram.payload@ == data@.take(12)),
            final(self)@.maintenance != old(self)@.maintenance ==> packet_ids(data@) == (
                0u32,
                0xffff_ffffu32,
            ) && data@.len() >= 29 && data@[8] == 0 && old(self)@.command_digest == Some(
                data@.subrange(9, 29),
            ),
    {
        let sender_id: u32 = read_le_u32(data[0], data[1], data[2], data[3]);
        let receiver_id: u32 = read_le_u32(data[4], data[5], data[6], data[7]);
        if sender_id == 0 {
            if receiver_id == u32::MAX && data.len() >= COMMAND_LENGTH {
                let digest = vstd::slice::slice_subrange(data, 9, COMMAND_LENGTH);
                self.execute_command_at(data[8], digest, remote_addr.ip, now, unix_ms / 1000);
            }
            if receiver_id != 0 {
                return None;
            }
        }
        if !self.is_valid_packet(sender_id, receiver_id, &remote_addr) {
            self.count_dropped();
            return None;
        }
        if sender_id == 0 && receiver_id == 0 {
            let mut reply: Option<Datagram> = None;
            if data.len() == PING_LENGTH {
                if !self.ping_limit_reached_at(remote_addr.ip, now) {
                    reply = Some(
                        Datagram {
                            payload: first_bytes(data, PING_REPLY_LENGTH),
                            to: remote_addr,
                        },
                    );
                } else {
                    self.count_dropped();
                }
            }
            self.count_processed();
            return reply;
        }
        let reply = self.handle_tunnel_traffic_at(
            sender_id,
            receiver_id,
            data,
            remote_addr,
            mappings,
            connection_state,
            now,
            unix_ms,
        );
        self.count_processed();
        reply
    }
}

/// The connections after several clients have disconnected, in this order.
pub open spec fn after_removals(connections: Connections, order: Seq<u32>) -> Connections
    decreases order.len(),
{
    if order.len() == 0 {
        connections
    } else {
        after_removals(connections, order.drop_last()).after_remove(order.last())
    }
}

/// Public counters of the service.
#[derive(Debug, Clone, Copy, PartialEq, Eq, Structural)]
pub struct V3Metrics {
    pub packets_received: u64,
    pub packets_processed: u64,
    pub packets_dropped: u64,
    pub packets_tunneled: u64,
    pub connections_created: u64,
    pub connections_rejected: u64,
    pub active_connections: usize,
    pub active_ips: usize,
    pub failed_commands: u64,
}

impl TunnelV3 {
    /// Removes the clients that have timed out, with the clock at `now`.
    pub fn cleanup_expired_at(
        &mut self,
        mappings: &mut Table<u32, TunnelClient>,
        connection_state: &mut ConnectionState,
        now: u64,
    )
        ensures
            states(final(mappings)@) == survivors(states(old(mappings)@), now),
            exists|order: Seq<u32>| #[trigger]
                is_expired_list(order, states(old(mappings)@), now)
                    && final(connection_state)@ == after_removals(old(connection_state)@, order)
                    && final(self)@ == old(self)@.count(
                    old(self)@.counters.without_connections(order.len() as usize),
                ),
    {
        let ghost clients = states(mappings@);
        let listed = mappings.entries();
        let mut expired: Vec<u32> = Vec::new();
        let mut i: usize = 0;
        proof {
            lemma_listing_len(listed@, mappings@);
            lemma_states_dom(mappings@);
        }
        while i < listed.len()
            invariant
                i <= listed@.len(),
                lists(listed@, old(mappings)@),
                clients == states(old(mappings)@),
                clients.dom() == old(mappings)@.dom(),
                expired@.len() <= i,
                expired@.no_duplicates(),
                forall|id: u32| #[trigger]
                    expired@.contains(id) <==> clients[id].timed_out(now) && listed_before(
                        listed@,
                        i as int,
                        id,
                    ),
                forall|id: u32| #[trigger]
                    states(mappings@).contains_key(id) <==> clients.contains_key(id) && !(
                    clients[id].timed_out(now) && listed_before(listed@, i as int, id)),
                forall|id: u32| #[trigger]
                    states(mappings@).contains_key(id) ==> states(mappings@)[id]
                        == if listed_before(listed@, i as int, id) {
                        clients[id].measured(now)
                    } else {
                        clients[id]
                    },
                self@ == old(self)@,
                connection_state@ == after_removals(old(connection_state)@, expired@),
            decreases listed@.len() - i,
        {
            let (id, found) = listed[i];
            let mut client = found;
            let ghost before = expired@;
            proof {
                assert(old(mappings)@.contains_key(listed@[i as int].0));
                assert(clients[id] == client@);
                assert(!listed_before(listed@, i as int, id));
                assert forall|other: u32| #[trigger]
                    listed_before(listed@, i + 1, other) == (other == id || listed_before(
                        listed@,
                        i as int,
                        other,
                    )) by {
                    assert(listed@[i as int].0 == id);
                }
            }
            if client.is_timed_out_at(now) {
                proof {
                    lemma_states_remove(mappings@, id);
                }
                connection_state.remove_connection(id);
                mappings.remove(&id);
                expired.push(id);
                proof {
                    assert(expired@.drop_last() =~= before);
                    assert(!before.contains(id));
                    assert(expired@[expired@.len() - 1] == id);
                }
            } else {
                proof {
                    lemma_states_insert(mappings@, id, client);
                }
                mappings.insert(id, client);
            }
            i = i + 1;
            proof {
                assert forall|other: u32| #[trigger]
                    expired@.contains(other) <==> clients[other].timed_out(now) && listed_before(
                        listed@,
                        i as int,
                        other,
                    ) by {
                    assert(before.contains(other) <==> clients[other].timed_out(now)
                        && listed_before(listed@, i - 1, other));
                    if before.contains(other) {
                        let j = choose|j: int| 0 <= j < before.len() && before[j] == other;
                        assert(expired@[j] == other);
                    }
                    if expired@.contains(other) && other != id {
                        let j = choose|j: int| 0 <= j < expired@.len() && expired@[j] == other;
                        assert(before[j] == other);
                    }
                }
            }
        }
        self.metrics.active_connections = self.metrics.active_connections.wrapping_sub(
            expired.len(),
        );
        proof {
            assert forall|id: u32| clients.contains_key(id) implies #[trigger] listed_before(
                listed@,
                i as int,
                id,
            ) by {
                assert(old(mappings)@.contains_key(id));
            }
            assert forall|id: u32| #[trigger] listed_before(
                listed@,
                i as int,
                id,
            ) implies clients.contains_key(id) by {
                let j = choose|j: int| 0 <= j < i && (#[trigger] listed@[j]).0 == id;
                assert(old(mappings)@.contains_key(listed@[j].0));
            }
            assert(states(mappings@) =~= survivors(clients, now));
            assert(is_expired_list(expired@, clients, now));
        }
    }

    /// Does the work of a heartbeat, with the clock at `now`: removes the clients that have timed
    /// out, and comes back with the address that announces the service, if it is announced.
    pub fn send_heartbeat_at(
        &mut self,
        mappings: &mut Table<u32, TunnelClient>,
        connection_state: &mut ConnectionState,
        now: u64,
    ) -> (url: Option<String>)
        ensures
            states(final(mappings)@) == survivors(states(old(mappings)@), now),
            exists|order: Seq<u32>| #[trigger]
                is_expired_list(order, states(old(mappings)@), now)
                    && final(connection_state)@ == after_removals(old(connection_state)@, order)
                    && final(self)@ == old(self)@.count(
                    old(self)@.counters.without_connections(order.len() as usize),
                ),
            is_heartbeat_url(
                url,
                old(self)@.settings.no_master_announce,
                old(self)@.settings.master_server_url,
                old(self)@.settings.name,
                3,
                old(self)@.settings.port,
                final(mappings)@.len(),
                old(self)@.settings.max_clients as nat,
                old(self)@.settings.master_password,
                old(self)@.maintenance,
            ),
    {
        self.cleanup_expired_at(mappings, connection_state, now);
        let clients: usize = mappings.len();
        heartbeat_url(
            self.config.no_master_announce,
            self.config.master_server_url.as_str(),
            self.config.name.as_str(),
            3,
            self.config.port,
            clients,
            self.config.max_clients,
            self.config.master_password.as_str(),
            self.maintenance_mode,
        )
    }

    /// The counters of the service, and the number of addresses that have sent pings.
    pub fn metrics(&self) -> (metrics: V3Metrics)
        requires
            self@.wf(),
        ensures
            metrics == (V3Metrics {
                packets_received: self@.counters.packets_received,
                packets_processed: self@.counters.packets_processed,
                packets_dropped: self@.counters.packets_dropped,
                packets_tunneled: self@.counters.packets_tunneled,
                connections_created: self@.counters.connections_created,
                connections_rejected: self@.counters.connections_rejected,
                active_connections: self@.counters.active_connections,
                active_ips: self@.pings.buckets.len() as usize,
                failed_commands: self@.counters.failed_commands,
            }),
    {
        V3Metrics {
            packets_received: self.metrics.packets_received,
            packets_processed: self.metrics.packets_processed,
            packets_dropped: self.metrics.packets_dropped,
            packets_tunneled: self.metrics.packets_tunneled,
            connections_created: self.metrics.connections_created,
            connections_rejected: self.metrics.connections_rejected,
            active_connections: self.metrics.active_connections,
            active_ips: self.ping_manager.active_ips(),
            failed_commands: self.metrics.failed_commands,
        }
    }

    /// Drops the ping limits of addresses that have not been active, with the clock at `now`, and
    /// comes back with the milliseconds to wait before this is done again.
    pub fn cleanup_pings_at(&mut self, now: u64) -> (delay_ms: u64)
        requires
            old(self)@.wf(),
        ensures
            final(self)@.wf(),
            final(self)@ == (V3State { pings: old(self)@.pings.cleaned_up(now), ..old(self)@ }),
            delay_ms == final(self)@.pings.next_cleanup_delay(),
    {
        self.ping_manager.cleanup_at(now);
        self.ping_manager.next_cleanup_delay_ms()
    }

    /// Drops the command limits of addresses that have not been active, with the clock at `now`,
    /// and comes back with the milliseconds to wait before this is done again.
    pub fn cleanup_commands_at(&mut self, now: u64) -> (delay_ms: u64)
        requires
            old(self)@.wf(),
        ensures
            final(self)@.wf(),
            final(self)@ == (V3State {
                commands: old(self)@.commands.cleaned_up(now),
                ..old(self)@
            }),
            delay_ms == final(self)@.commands.next_cleanup_delay(),
    {
        self.command_manager.cleanup_at(now);
        self.command_manager.next_cleanup_delay_ms()
    }

    /// Forgets the addresses that are not blocked from sending commands at Unix time `unix_secs`
    /// in seconds.
    pub fn cleanup_blocklist_at(&mut self, unix_secs: u64)
        ensures
            final(self)@ == (V3State {
                blocklist: in_force(old(self)@.blocklist, unix_secs),
                ..old(self)@
            }),
    {
        self.command_blocklist.cleanup_at(unix_secs);
    }
}

/// Whatever packets arrive, every client stays connected from the address that it sends from, and
/// the connections of each address stay counted right.
pub proof fn law_traffic_stays_coherent(
    traffic: Traffic,
    sender: u32,
    addr: SocketAddr,
    terms: Terms,
)
    requires
        traffic.coherent(),
    ensures
        traffic.after(sender, addr, terms).coherent(),
{
    let after = traffic.after(sender, addr, terms);
    let ip = addr.ip.spec_key();
    if traffic.clients.contains_key(sender) {
        law_update_is_consistent(traffic.connections, sender, ip, terms.ip_limit, terms.unix_ms);
    } else {
        law_add_is_consistent(traffic.connections, sender, ip, terms.ip_limit, terms.unix_ms);
    }
    assert(after.connections.clients.dom() =~= after.clients.dom());
    assert forall|id: u32| #[trigger]
        after.clients.contains_key(id) implies after.clients[id].remote_ep matches Some(endpoint)
        && after.connections.clients[id] == endpoint.ip.spec_key() by {
        if traffic.clients.contains_key(id) {
            assert(traffic.clients[id].remote_ep is Some);
        }
    }
}

/// Whatever packets arrive, there are never more clients than the service admits, and never more
/// of one address than its limit.
pub proof fn law_limits_are_kept(
    traffic: Traffic,
    sender: u32,
    addr: SocketAddr,
    terms: Terms,
    ip: crate::addr::IpKey,
)
    requires
        traffic.coherent(),
        traffic.clients.len() <= terms.max_clients,
        traffic.connections.count(ip) <= terms.ip_limit,
    ensures
        traffic.after(sender, addr, terms).clients.len() <= terms.max_clients,
        traffic.after(sender, addr, terms).connections.count(ip) <= terms.ip_limit,
{
    assert(traffic.clients.dom().finite());
    law_limit_is_kept(
        traffic.connections,
        sender,
        addr.ip.spec_key(),
        terms.ip_limit,
        terms.unix_ms,
        ip,
    );
    let after = traffic.after(sender, addr, terms);
    if traffic.clients.contains_key(sender) {
        assert(after.clients.dom() =~= traffic.clients.dom());
    }
}

/// Removing clients that have timed out keeps the connections coherent as well.
pub proof fn law_cleanup_stays_coherent(traffic: Traffic, order: Seq<u32>, now: u64)
    requires
        traffic.coherent(),
        is_expired_list(order, traffic.clients, now),
    ensures
        (Traffic {
            clients: survivors(traffic.clients, now),
            connections: after_removals(traffic.connections, order),
            counters: traffic.counters,
        }).coherent(),
{
    lemma_removals(traffic.connections, order);
    let clients = survivors(traffic.clients, now);
    let connections = after_removals(traffic.connections, order);
    assert(connections.clients.dom() =~= clients.dom());
    assert forall|id: u32| #[trigger] clients.contains_key(id) implies clients[id].remote_ep matches Some(
        endpoint,
    ) && connections.clients[id] == endpoint.ip.spec_key() by {
        assert(traffic.clients.contains_key(id));
        assert(!order.contains(id));
    }
}

proof fn lemma_removals(connections: Connections, order: Seq<u32>)
    requires
        connections.consistent(),
    ensures
        after_removals(connections, order).consistent(),
        forall|id: u32| #[trigger]
            after_removals(connections, order).clients.contains_key(id)
                <==> connections.clients.contains_key(id) && !order.contains(id),
        forall|id: u32|
            after_removals(connections, order).clients.contains_key(id) ==> #[trigger] after_removals(
                connections,
                order,
            ).clients[id] == connections.clients[id],
    decreases order.len(),
{
    if order.len() > 0 {
        let rest = order.drop_last();
        lemma_removals(connections, rest);
        law_remove_is_consistent(after_removals(connections, rest), order.last());
        assert forall|id: u32| order.contains(id) == (rest.contains(id) || id == order.last()) by {
            if rest.contains(id) {
                let j = choose|j: int| 0 <= j < rest.len() && rest[j] == id;
                assert(order[j] == id);
            }
            if order.contains(id) && id != order.last() {
                let j = choose|j: int| 0 <= j < order.len() && order[j] == id;
                assert(rest[j] == id);
            }
            assert(order[order.len() - 1] == order.last());
        }
        assert forall|id: u32| #[trigger] after_removals(connections, order).clients.contains_key(
            id,
        ) <==> connections.clients.contains_key(id) && !order.contains(id) by {
            assert(after_removals(connections, rest).clients.contains_key(id)
                <==> connections.clients.contains_key(id) && !rest.contains(id));
        }
    }
}

/// Nobody can take over the ID of a client that has not timed out: its address stays, and packets
/// from any other address are rejected.
pub proof fn law_active_client_keeps_its_address(
    traffic: Traffic,
    sender: u32,
    addr: SocketAddr,
    terms: Terms,
)
    requires
        traffic.clients.contains_key(sender),
        traffic.clients[sender].remote_ep is Some,
        terms.maintenance || !traffic.clients[sender].timed_out(terms.now),
    ensures
        traffic.after(sender, addr, terms).clients[sender].remote_ep
            == traffic.clients[sender].remote_ep,
        traffic.accepts(sender, addr, terms) <==> traffic.clients[sender].remote_ep == Some(addr),
{
}

/// In maintenance mode nobody new is admitted and nobody moves, but a client that is connected is
/// still served.
pub proof fn law_maintenance_keeps_connected_clients(
    traffic: Traffic,
    sender: u32,
    addr: SocketAddr,
    terms: Terms,
)
    requires
        traffic.coherent(),
        terms.maintenance,
    ensures
        traffic.after(sender, addr, terms).clients.dom() == traffic.clients.dom(),
        traffic.after(sender, addr, terms).connections == traffic.connections,
        traffic.accepts(sender, addr, terms) <==> traffic.clients.contains_key(sender)
            && traffic.clients[sender].remote_ep == Some(addr),
{
    let after = traffic.after(sender, addr, terms);
    assert(after.clients.dom() =~= traffic.clients.dom());
}

/// A packet is never sent back to where it came from, and it goes nowhere unless its sender is
/// accepted.
pub proof fn law_never_back_to_the_sender(
    traffic: Traffic,
    sender: u32,
    receiver: u32,
    addr: SocketAddr,
    terms: Terms,
)
    ensures
        traffic.destination(sender, receiver, addr, terms) != Some(addr),
        traffic.destination(sender, receiver, addr, terms) is Some ==> traffic.accepts(
            sender,
            addr,
            terms,
        ),
{
}

/// A packet affects no client but its sender.
pub proof fn law_packets_affect_only_their_sender(
    traffic: Traffic,
    sender: u32,
    addr: SocketAddr,
    terms: Terms,
    other: u32,
)
    requires
        other != sender,
    ensures
        traffic.after(sender, addr, terms).clients.contains_key(other)
            == traffic.clients.contains_key(other),
        traffic.after(sender, addr, terms).clients[other] == traffic.clients[other],
{
}

/// Two connected clients can talk to each other: a packet from one, sent from its address, goes
/// to the address of the other, in maintenance mode as well.
pub proof fn law_connected_clients_reach_each_other(
    traffic: Traffic,
    sender: u32,
    receiver: u32,
    from: SocketAddr,
    to: SocketAddr,
    terms: Terms,
)
    requires
        sender != receiver,
        from != to,
        traffic.clients.contains_key(sender) && traffic.clients[sender].remote_ep == Some(from),
        traffic.clients.contains_key(receiver) && traffic.clients[receiver].remote_ep == Some(to),
    ensures
        traffic.destination(sender, receiver, from, terms) == Some(to),
{
}

/// Only command 0 with the right digest changes maintenance mode, and it toggles it.
pub proof fn law_only_the_password_toggles_maintenance(
    before: V3State,
    after: V3State,
    command: u8,
    digest: Seq<u8>,
    ip: crate::addr::IpKey,
    now: u64,
    unix_secs: u64,
)
    requires
        command_executed(before, after, command, digest, ip, now, unix_secs),
    ensures
        after.maintenance != before.maintenance ==> command == 0 && before.command_digest == Some(
            digest,
        ) && !blocked(before.blocklist, ip, unix_secs),
        after.settings == before.settings,
        after.command_digest == before.command_digest,
{
}

/// A packet starts with the IDs of its sender and its receiver, 32 bits each, the low byte first.
/// It is worth looking at unless it goes from a client to itself or comes from where no packet can
/// come from.
pub proof fn law_header_is_read(data: Seq<u8>, addr: SocketAddr)
    requires
        data.len() >= 8,
    ensures
        ({
            let (sender, receiver) = packet_ids(data);
            &&& sender == data[0] + 256 * data[1] + 65_536 * data[2] + 16_777_216 * data[3]
            &&& receiver == data[4] + 256 * data[5] + 65_536 * data[6] + 16_777_216 * data[7]
            &&& valid_packet(sender, receiver, addr) <==> (sender != receiver || sender == 0)
                && !spec_is_invalid_source(addr)
        }),
{
}

/// A new client is accepted exactly outside of maintenance mode, while there is room for one more
/// client, and for one more of its address.
pub proof fn law_new_client_gets_in_if_there_is_room(
    traffic: Traffic,
    sender: u32,
    addr: SocketAddr,
    terms: Terms,
)
    requires
        !traffic.clients.contains_key(sender),
    ensures
        traffic.accepts(sender, addr, terms) <==> !terms.maintenance && traffic.clients.len()
            < terms.max_clients && traffic.connections.count(addr.ip.spec_key()) < terms.ip_limit,
        ({
            let after = traffic.after(sender, addr, terms);
            &&& traffic.accepts(sender, addr, terms) ==> {
                let client = after.clients[sender];
                &&& after.clients.dom() == traffic.clients.dom().insert(sender)
                &&& client.remote_ep == Some(addr)
                &&& client.timeout == 30_000
                &&& client.clock == terms.clock
                &&& client.reference == terms.now && client.last_receive == 0
                &&& after.counters == (ServiceMetrics {
                    connections_created: traffic.counters.connections_created.wrapping_add(1),
                    active_connections: traffic.counters.active_connections.wrapping_add(1),
                    ..traffic.counters
                })
                &&& after.connections == traffic.connections.after_add(
                    sender,
                    addr.ip.spec_key(),
                    terms.ip_limit,
                    terms.unix_ms,
                )
            }
            &&& !traffic.accepts(sender, addr, terms) ==> {
                &&& after.clients == traffic.clients
                &&& after.counters == (ServiceMetrics {
                    connections_rejected: traffic.counters.connections_rejected.wrapping_add(1),
                    ..traffic.counters
                })
                &&& after.connections.clients == traffic.connections.clients
            }
            &&& terms.maintenance || traffic.clients.len() >= terms.max_clients
                ==> after.connections == traffic.connections
            &&& !terms.maintenance && traffic.clients.len() < terms.max_clients
                ==> after.connections.activity == traffic.connections.activity.insert(
                addr.ip.spec_key(),
                terms.unix_ms,
            )
        }),
{
    law_connections_are_counted(
        traffic.connections,
        sender,
        addr.ip.spec_key(),
        terms.ip_limit,
        terms.unix_ms,
        addr.ip.spec_key(),
    );
    let after = traffic.after(sender, addr, terms);
    if traffic.accepts(sender, addr, terms) {
        assert(after.clients.dom() =~= traffic.clients.dom().insert(sender));
    }
}

/// A packet that a known client sends from its own address, or before it has one, is accepted. It
/// counts as its sign of life, and nothing else changes.
pub proof fn law_packet_renews_its_client(
    traffic: Traffic,
    sender: u32,
    addr: SocketAddr,
    terms: Terms,
)
    requires
        traffic.clients.contains_key(sender),
        traffic.clients[sender].remote_ep is None || traffic.clients[sender].remote_ep == Some(addr),
        traffic.clients[sender].reference <= terms.now,
    ensures
        traffic.accepts(sender, addr, terms),
        ({
            let before = traffic.clients[sender];
            let after = traffic.after(sender, addr, terms);
            let client = after.clients[sender];
            &&& after.clients.dom() == traffic.clients.dom()
            &&& client.remote_ep == Some(addr)
            &&& client.timeout == before.timeout
            &&& client.clock == before.clock
            &&& client.silent_for(terms.now) == 0
            &&& terms.now - before.reference < 18_446_744_073_709_551 ==> client.reference
                == before.reference && client.last_receive == terms.now - before.reference
            &&& after.connections == traffic.connections
            &&& after.counters == traffic.counters
        }),
{
    let after = traffic.after(sender, addr, terms);
    assert(after.clients.dom() =~= traffic.clients.dom());
}

/// An ID changes hands only after its client has timed out, outside of maintenance mode, and while
/// there is room for one more client of the new address. Otherwise the packet is rejected, and the
/// client keeps its address.
pub proof fn law_id_changes_hands_only_after_the_timeout(
    traffic: Traffic,
    sender: u32,
    addr: SocketAddr,
    terms: Terms,
)
    requires
        traffic.coherent(),
        traffic.clients.contains_key(sender),
        traffic.clients[sender].remote_ep is Some,
        traffic.clients[sender].remote_ep != Some(addr),
        traffic.clients[sender].reference + traffic.clients[sender].last_receive <= terms.now,
        terms.now - traffic.clients[sender].reference < 18_446_744_073_709_551,
    ensures
        ({
            let before = traffic.clients[sender];
            let ip = addr.ip.spec_key();
            let after = traffic.after(sender, addr, terms);
            let client = after.clients[sender];
            let silent = terms.now - before.reference - before.last_receive;
            &&& traffic.accepts(sender, addr, terms) <==> !terms.maintenance && silent
                >= before.timeout && (traffic.connections.count(ip) < terms.ip_limit
                || traffic.connections.clients[sender] == ip)
            &&& after.clients.dom() == traffic.clients.dom()
            &&& traffic.accepts(sender, addr, terms) ==> {
                &&& client == (ClientState {
                    remote_ep: Some(addr),
                    last_receive: (terms.now - before.reference) as u64,
                    ..before
                })
                &&& after.counters == traffic.counters
            }
            &&& !traffic.accepts(sender, addr, terms) ==> {
                &&& client == before
                &&& after.counters == (ServiceMetrics {
                    connections_rejected: traffic.counters.connections_rejected.wrapping_add(1),
                    ..traffic.counters
                })
                &&& after.connections.clients == traffic.connections.clients
            }
            &&& terms.maintenance || silent < before.timeout ==> after.connections
                == traffic.connections
            &&& !terms.maintenance && silent >= before.timeout ==> after.connections
                == traffic.connections.after_update(sender, ip, terms.ip_limit, terms.unix_ms)
        }),
{
    let after = traffic.after(sender, addr, terms);
    assert(after.clients.dom() =~= traffic.clients.dom());
    assert(traffic.connections.clients.dom().contains(sender));
    law_moving_clients_are_counted(
        traffic.connections,
        sender,
        addr.ip.spec_key(),
        terms.ip_limit,
        terms.unix_ms,
        addr.ip.spec_key(),
    );
}

/// A packet that is accepted goes to the address of its receiver, whenever that client is known,
/// has an address, and is elsewhere; otherwise, and when it is not accepted, nowhere.
pub proof fn law_packets_reach_their_receiver(
    traffic: Traffic,
    sender: u32,
    receiver: u32,
    addr: SocketAddr,
    terms: Terms,
)
    requires
        sender != receiver,
    ensures
        ({
            let to = traffic.destination(sender, receiver, addr, terms);
            let known = traffic.clients.contains_key(receiver);
            &&& !traffic.accepts(sender, addr, terms) ==> to is None
            &&& !known ==> to is None
            &&& known && traffic.clients[receiver].remote_ep is None ==> to is None
            &&& known && traffic.clients[receiver].remote_ep == Some(addr) ==> to is None
            &&& traffic.accepts(sender, addr, terms) && known && traffic.clients[receiver].remote_ep
                != Some(addr) ==> to == traffic.clients[receiver].remote_ep
        }),
{
}

/// A ping of 50 bytes is answered exactly if the limits allow it, and counted as processed either
/// way; one that is not answered is counted as dropped as well. Other packets with both IDs 0 are
/// counted and left.
pub proof fn law_pings_are_answered_within_the_limits(
    before: V3State,
    after: V3State,
    length: nat,
    ip: crate::addr::IpKey,
    now: u64,
    answered: bool,
)
    requires
        pinged(before, after, length, ip, now, answered),
    ensures
        length == 50 ==> requested_both(
            before.pings,
            after.pings,
            before.shared_pings,
            after.shared_pings,
            ip,
            now,
            !answered,
        ),
        length != 50 ==> !answered && after.pings == before.pings && after.shared_pings
            == before.shared_pings,
        after == (V3State {
            pings: after.pings,
            shared_pings: after.shared_pings,
            counters: ServiceMetrics {
                packets_processed: before.counters.packets_processed.wrapping_add(1),
                packets_dropped: if length == 50 && !answered {
                    before.counters.packets_dropped.wrapping_add(1)
                } else {
                    before.counters.packets_dropped
                },
                ..before.counters
            },
            ..before
        }),
{
}

/// A command of an address that is blocked does nothing, and is not even charged. Any other is
/// charged to its address and then to all; within both limits, and if there is a password, a wrong
/// digest is a failed attempt, and with the right one command 0 toggles maintenance mode.
pub proof fn law_commands_need_the_digest(
    before: V3State,
    after: V3State,
    command: u8,
    digest: Seq<u8>,
    ip: crate::addr::IpKey,
    now: u64,
    unix_secs: u64,
)
    requires
        command_executed(before, after, command, digest, ip, now, unix_secs),
    ensures
        before.blocklist.contains_key(ip) && unix_secs < before.blocklist[ip].1 ==> after == before,
        !(before.blocklist.contains_key(ip) && unix_secs < before.blocklist[ip].1)
            ==> exists|refused: bool|
            {
                &&& #[trigger] requested_both(
                    before.commands,
                    after.commands,
                    before.shared_commands,
                    after.shared_commands,
                    ip,
                    now,
                    refused,
                )
                &&& !refused && command == 0 && before.command_digest == Some(digest)
                    ==> after.maintenance == !before.maintenance
                &&& refused || command != 0 || before.command_digest != Some(digest)
                    ==> after.maintenance == before.maintenance
                &&& !refused && before.command_digest is Some && before.command_digest != Some(
                    digest,
                ) ==> after.counters == (ServiceMetrics {
                    failed_commands: before.counters.failed_commands.wrapping_add(1),
                    ..before.counters
                }) && after.blocklist == after_failure(
                    after_lookup(before.blocklist, ip, unix_secs),
                    ip,
                    unix_secs,
                )
                &&& refused || before.command_digest is None || before.command_digest == Some(
                    digest,
                ) ==> after.counters == before.counters && after.blocklist == after_lookup(
                    before.blocklist,
                    ip,
                    unix_secs,
                )
            },
        after.pings == before.pings,
        after.shared_pings == before.shared_pings,
        after.settings == before.settings,
        after.clock == before.clock,
{
}

/// The digest that authorizes commands is the SHA-1 digest of the password, if there is one.
pub proof fn law_commands_are_authorized_by_the_password(settings: V3Settings)
    ensures
        settings.maintenance_password.len() == 0 ==> settings.command_digest() is None,
        settings.maintenance_password.len() > 0 ==> settings.command_digest() == Some(
            sha1_digest(encode_utf8(settings.maintenance_password)),
        ),
{
}

/// Clients that are removed are disconnected one after the other, each of them once.
pub proof fn law_removed_clients_are_disconnected(
    connections: Connections,
    order: Seq<u32>,
    last: u32,
    id: u32,
)
    requires
        connections.consistent(),
    ensures
        after_removals(connections, Seq::empty()) == connections,
        after_removals(connections, order.push(last)) == after_removals(
            connections,
            order,
        ).after_remove(last),
        after_removals(connections, order).clients.contains_key(id)
            <==> connections.clients.contains_key(id) && !order.contains(id),
{
    lemma_removals(connections, order);
    assert(order.push(last).drop_last() =~= order);
}

/// A packet of 8 to 1024 bytes is processed if there is a place for it. Others are counted as
/// dropped; only a shutdown ends the loop.
pub proof fn law_packets_of_the_size_are_processed(
    counters: ServiceMetrics,
    event: ReceiveEvent,
    size: usize,
)
    ensures
        ({
            let (action, after) = receive_step(counters, event);
            let fits = 8 <= size <= 1024;
            &&& action is Stop <==> event is Shutdown
            &&& action is Process <==> event == ReceiveEvent::Permit(true)
            &&& event == ReceiveEvent::Packet(size) ==> (action is AskPermit <==> fits)
            &&& !(event is Packet) ==> !(action is AskPermit)
            &&& event == ReceiveEvent::Packet(size) ==> after == (ServiceMetrics {
                packets_received: counters.packets_received.wrapping_add(1),
                packets_dropped: if fits {
                    counters.packets_dropped
                } else {
                    counters.packets_dropped.wrapping_add(1)
                },
                ..counters
            })
            &&& event == ReceiveEvent::Permit(false) ==> after == (ServiceMetrics {
                packets_dropped: counters.packets_dropped.wrapping_add(1),
                ..counters
            })
            &&& event is Shutdown || event == ReceiveEvent::Permit(true) || event is Failed
                || event is TimedOut ==> after == counters
        }),
{
}

/// Every counter counts its own events, and no others; a new client is counted as made and as
/// active, and leaves the second count when it is removed.
pub proof fn law_events_are_counted(counters: ServiceMetrics, count: usize)
    ensures
        counters.with_received() == (ServiceMetrics {
            packets_received: counters.packets_received.wrapping_add(1),
            ..counters
        }),
        counters.with_processed() == (ServiceMetrics {
            packets_processed: counters.packets_processed.wrapping_add(1),
            ..counters
        }),
        counters.with_dropped() == (ServiceMetrics {
            packets_dropped: counters.packets_dropped.wrapping_add(1),
            ..counters
        }),
        counters.with_tunneled() == (ServiceMetrics {
            packets_tunneled: counters.packets_tunneled.wrapping_add(1),
            ..counters
        }),
        counters.with_created() == (ServiceMetrics {
            connections_created: counters.connections_created.wrapping_add(1),
            active_connections: counters.active_connections.wrapping_add(1),
            ..counters
        }),
        counters.with_rejected() == (ServiceMetrics {
            connections_rejected: counters.connections_rejected.wrapping_add(1),
            ..counters
        }),
        counters.with_failed_command() == (ServiceMetrics {
            failed_commands: counters.failed_commands.wrapping_add(1),
            ..counters
        }),
        counters.without_connections(count) == (ServiceMetrics {
            active_connections: counters.active_connections.wrapping_sub(count),
            ..counters
        }),
        counters.with_created().without_connections(1).active_connections
            == counters.active_connections,
{
}

/// A new service is not in maintenance, has counted nothing and blocks nobody, and its limits are
/// those of its settings: as many pings and commands in every interval, from the start.
pub proof fn law_new_service_has_its_limits(
    settings: V3Settings,
    digest: Option<Seq<u8>>,
    clock: MonotonicClock,
    now: u64,
)
    requires
        settings.max_pings_per_ip <= u32::MAX,
        settings.max_pings_global <= u32::MAX,
        settings.max_commands_per_ip <= u32::MAX,
        settings.max_commands_global <= u32::MAX,
    ensures
        ({
            let state = V3State::initial(settings, digest, clock, now);
            &&& state.settings == settings
            &&& state.command_digest == digest
            &&& state.clock == clock
            &&& !state.maintenance
            &&& state.blocklist.len() == 0
            &&& state.pings.buckets.len() == 0 && state.commands.buckets.len() == 0
            &&& state.pings.config.max_tokens == settings.max_pings_per_ip
            &&& state.pings.config.refill_rate == settings.max_pings_per_ip
            &&& state.pings.config.refill_interval_ms == settings.reset_interval_ms
            &&& state.commands.config.max_tokens == settings.max_commands_per_ip
            &&& state.commands.config.refill_rate == settings.max_commands_per_ip
            &&& state.commands.config.refill_interval_ms == settings.reset_interval_ms
            &&& state.shared_pings.tokens == settings.max_pings_global
            &&& state.shared_pings.config.max_tokens == settings.max_pings_global
            &&& state.shared_pings.config.refill_rate == settings.max_pings_global
            &&& state.shared_pings.config.refill_interval_ms == settings.reset_interval_ms
            &&& state.shared_commands.tokens == settings.max_commands_global
            &&& state.shared_commands.config.max_tokens == settings.max_commands_global
            &&& state.shared_commands.config.refill_rate == settings.max_commands_global
            &&& state.shared_commands.config.refill_interval_ms == settings.reset_interval_ms
            &&& state.counters == (ServiceMetrics {
                packets_received: 0,
                packets_processed: 0,
                packets_dropped: 0,
                packets_tunneled: 0,
                connections_created: 0,
                connections_rejected: 0,
                active_connections: 0,
                failed_commands: 0,
            })
        }),
{
}

/// Unless something else is asked for, the service has room for 200 clients, 8 of an address, on
/// port 50001, and an address may send 20 pings and 5 commands a minute. Settings that cannot be
/// used become these, and the others stay.
pub proof fn law_settings_are_normalized(settings: V3Settings)
    ensures
        V3Settings::defaults() == (V3Settings {
            port: 50_001,
            max_clients: 200,
            ip_limit: 8,
            name: "Unnamed server"@,
            no_master_announce: false,
            master_password: Seq::empty(),
            maintenance_password: "KUYn3b2z"@,
            master_server_url: "http://cncnet.org/master-announce"@,
            max_pings_per_ip: 20,
            max_pings_global: 5000,
            max_commands_per_ip: 5,
            max_commands_global: 100,
            reset_interval_ms: 60_000,
            max_concurrent_processing: 2000,
        }),
        ({
            let normalized = settings.normalized();
            &&& settings.port > 1024 ==> normalized.port == settings.port
            &&& settings.port <= 1024 ==> normalized.port == 50_001
            &&& settings.max_clients >= 2 ==> normalized.max_clients == settings.max_clients
            &&& settings.max_clients < 2 ==> normalized.max_clients == 200
            &&& settings.ip_limit >= 1 ==> normalized.ip_limit == settings.ip_limit
            &&& settings.ip_limit == 0 ==> normalized.ip_limit == 8
            &&& settings.name.len() == 0 ==> normalized.name == "Unnamed server"@
            &&& settings.name.len() > 0 ==> normalized.name == without(settings.name, ';')
            &&& normalized == (V3Settings {
                port: normalized.port,
                max_clients: normalized.max_clients,
                ip_limit: normalized.ip_limit,
                name: normalized.name,
                ..settings
            })
        }),
{
}

} // verus!
