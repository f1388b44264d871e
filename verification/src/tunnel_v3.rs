//! Tunnel V3 of the server: packets between clients with 32-bit IDs.
//!
//! A packet starts with the sender ID and the receiver ID, 32 bits each, little-endian. A packet
//! of 50 bytes with both IDs 0 is a ping. A packet from ID 0 to the largest ID is a command: byte
//! 8 says which (0 toggles maintenance mode, 1 forces a cleanup), and bytes 9 to 28 are the SHA-1
//! digest of the maintenance password. Maintenance mode rejects new connections and keeps the
//! existing ones.

use vstd::prelude::*;

use vstd::utf8::encode_utf8;

use crate::addr::{is_routable, validate_address, SocketAddr};
use crate::announce::{announce_url, build_url, encode_component, encoded_component, Announcement};
use crate::clock::{relay_timestamp, MonotonicClock};
use crate::config::ServerConfig;
use crate::digest::{is_digest, sha1_digest, sha1_of};
use crate::metrics::{Batch, Counters, LocalMetricsBatch, Metrics};
use crate::packet::{
    copy_of, first_bytes, le_u32, read_le_u32, Datagram, PING_LENGTH, PING_REPLY_LENGTH,
};
use crate::rate_limiter::{
    asked, connection_limits, request_limits, ConnectionRateLimiter, RateLimiter, Throttling,
};
use crate::relay_client::{
    counted_losses, lemma_records_dom, lemma_records_insert, losses, records, Losses, RelayClient,
    RelayQuality, RelayRecord, Traffic,
};
use crate::table::{capacity_for, lemma_submap_len, Table};
use crate::text::decimal;

verus! {

/// Version that is announced.
pub const VERSION: u64 = 3;

/// Seconds between two announcements.
pub const MASTER_ANNOUNCE_INTERVAL_SECS: u64 = 60;

/// Seconds in which one command is accepted.
pub const COMMAND_RATE_LIMIT_SECS: u64 = 60;

/// Pings that one address may send in a minute.
pub const MAX_PINGS_PER_IP: u32 = 20;

/// Seconds after which a silent client has timed out.
pub const TIMEOUT_SECONDS: u64 = 30;

/// The longest packet that is accepted.
pub const MAX_PACKET_SIZE: usize = 1472;

/// The shortest packet that is accepted.
pub const MIN_PACKET_SIZE: usize = 8;

/// The shortest command packet.
pub const COMMAND_LENGTH: usize = 29;

/// Errors in a row after which a worker reports them.
pub const REPORTED_ERRORS: u32 = 100;

/// State of the tunnel.
pub struct V3Relay {
    pub config: ServerConfig,
    pub clients: Map<u32, RelayRecord>,
    pub quality: Map<u32, Losses>,
    /// Connections of each address.
    pub connections: Throttling,
    /// Pings of each address.
    pub pings: Throttling,
    pub maintenance: bool,
    /// Seconds since the start at which the last command was accepted.
    pub last_command: u64,
    /// The digest that authorizes a command.
    pub command_digest: Option<Seq<u8>>,
    /// Heartbeats so far.
    pub heartbeats: u8,
    /// The clock that was started with the tunnel.
    pub boot: MonotonicClock,
}

impl V3Relay {
    /// Every client has a quality, and addresses may connect and send pings.
    pub open spec fn wf(self) -> bool {
        &&& self.clients.dom().finite()
        &&& self.quality.dom() == self.clients.dom()
        &&& forall|id: u32| #[trigger] self.quality.contains_key(id) ==> self.quality[id].wf()
        &&& self.connections.limits.valid()
        &&& self.pings.limits.valid()
    }

    /// Whether a connection of `sender` from `addr` would be a new one that is let in if the
    /// address is within its limit: the client is unknown and there is room, or it has timed out
    /// at another address. In maintenance mode there are no new connections.
    pub open spec fn needs_slot(self, sender: u32, addr: SocketAddr, now: u64) -> bool {
        &&& !self.maintenance
        &&& if self.clients.contains_key(sender) {
            &&& self.clients[sender].remote_ep is Some
            &&& self.clients[sender].remote_ep != Some(addr)
            &&& self.clients[sender].timed_out(now)
        } else {
            self.clients.len() < self.config.max_clients
        }
    }

    /// Whether `sender` is connected from `addr`.
    pub open spec fn is_connected(self, sender: u32, addr: SocketAddr) -> bool {
        self.clients.contains_key(sender) && self.clients[sender].remote_ep == Some(addr)
    }

    /// Whether a packet of `sender` from `addr` is accepted, given whether the address was granted
    /// a new connection.
    pub open spec fn accepts(self, sender: u32, addr: SocketAddr, now: u64, slot: bool) -> bool {
        self.is_connected(sender, addr) || (self.needs_slot(sender, addr, now) && slot)
    }

    /// The state after a packet of `length` bytes of `sender` from `addr`.
    pub open spec fn after_packet(
        self,
        sender: u32,
        addr: SocketAddr,
        length: usize,
        now: u64,
        slot: bool,
    ) -> V3Relay {
        if self.is_connected(sender, addr) {
            V3Relay {
                clients: self.clients.insert(
                    sender,
                    self.clients[sender].heard(now).with_traffic(length, 0),
                ),
                quality: self.quality.insert(sender, self.quality[sender].with_packet(false)),
                ..self
            }
        } else if self.accepts(sender, addr, now, slot) {
            V3Relay {
                clients: self.clients.insert(
                    sender,
                    RelayRecord::fresh(Some(addr), TIMEOUT_SECONDS, now),
                ),
                quality: self.quality.insert(
                    sender,
                    Losses { lost: 0, total: 0 },
                ),
                ..self
            }
        } else {
            self
        }
    }

    /// The counters after a packet of `sender` from `addr`: a new client, a client over the limit
    /// of its address, and a client for which there is no room are counted.
    pub open spec fn counters_after(
        self,
        counters: Counters,
        sender: u32,
        addr: SocketAddr,
        length: usize,
        now: u64,
        slot: bool,
    ) -> Counters {
        if self.maintenance || self.clients.contains_key(sender) {
            counters
        } else if self.clients.len() >= self.config.max_clients {
            Counters { dropped_packets: counters.dropped_packets.wrapping_add(1), ..counters }
        } else if slot {
            Counters { v3_active_clients: (self.clients.len() + 1) as usize, ..counters }
        } else {
            Counters { rate_limit_hits: counters.rate_limit_hits.wrapping_add(1), ..counters }
        }
    }

    /// Where a packet for `receiver` from `addr` goes: to the address of the receiver, but never
    /// back to where it came from.
    pub open spec fn forward_to(self, receiver: u32, addr: SocketAddr) -> Option<SocketAddr> {
        if self.clients.contains_key(receiver) && self.clients[receiver].remote_ep != Some(addr) {
            self.clients[receiver].remote_ep
        } else {
            None
        }
    }

    /// Where a packet of `sender` from `addr` for `receiver` goes.
    pub open spec fn destination(
        self,
        sender: u32,
        receiver: u32,
        addr: SocketAddr,
        length: usize,
        now: u64,
        slot: bool,
    ) -> Option<SocketAddr> {
        if self.accepts(sender, addr, now, slot) {
            self.after_packet(sender, addr, length, now, slot).forward_to(receiver, addr)
        } else {
            None
        }
    }

    /// The state after a packet of `length` bytes has been sent to `receiver`, or could not be.
    pub open spec fn after_sending(self, receiver: u32, length: usize, sent: bool) -> V3Relay {
        if !self.clients.contains_key(receiver) {
            self
        } else if sent {
            V3Relay {
                clients: self.clients.insert(
                    receiver,
                    self.clients[receiver].with_traffic(0, length),
                ),
                ..self
            }
        } else {
            V3Relay {
                quality: self.quality.insert(receiver, self.quality[receiver].with_packet(true)),
                ..self
            }
        }
    }

    /// The state after clients that have timed out at `now` have been removed. Pings are counted
    /// anew.
    pub open spec fn cleaned_up(self, now: u64) -> V3Relay {
        let alive = Set::new(
            |id: u32| self.clients.contains_key(id) && !self.clients[id].timed_out(now),
        );
        V3Relay {
            clients: self.clients.restrict(alive),
            quality: self.quality.restrict(alive),
            pings: Throttling::fresh(self.pings.limits),
            ..self
        }
    }

    /// Whether a command with the given digest is obeyed when the server has been up for so many
    /// seconds: there is a password, the last command is long enough ago, and the digest is right.
    pub open spec fn obeys(self, digest: Seq<u8>, uptime_secs: u64) -> bool {
        self.takes_command(uptime_secs) && self.command_digest == Some(digest)
    }

    /// Whether a command is looked at when the server has been up for so many seconds.
    pub open spec fn takes_command(self, uptime_secs: u64) -> bool {
        self.command_digest is Some && uptime_secs - self.last_command >= COMMAND_RATE_LIMIT_SECS
    }

    /// The state after a command.
    pub open spec fn after_command(
        self,
        command: u8,
        digest: Seq<u8>,
        uptime_secs: u64,
        now: u64,
    ) -> V3Relay {
        if !self.takes_command(uptime_secs) {
            self
        } else {
            let taken = V3Relay { last_command: uptime_secs, ..self };
            if !self.obeys(digest, uptime_secs) {
                taken
            } else if command == 0 {
                V3Relay { maintenance: !self.maintenance, ..taken }
            } else if command == 1 {
                taken.cleaned_up(now)
            } else {
                taken
            }
        }
    }
}

/// The sender ID and the receiver ID of a packet that is long enough to have them.
pub open spec fn packet_ids(packet: Seq<u8>) -> Option<(u32, u32)> {
    if packet.len() < 8 {
        None
    } else {
        Some(
            (
                le_u32(packet[0], packet[1], packet[2], packet[3]),
                le_u32(packet[4], packet[5], packet[6], packet[7]),
            ),
        )
    }
}

/// The client that a packet is for, unless it is a ping.
pub open spec fn addressee(packet: Seq<u8>) -> Option<u32> {
    match packet_ids(packet) {
        Some((sender, receiver)) => if sender == 0 && receiver == 0 {
            None
        } else {
            Some(receiver)
        },
        None => None,
    }
}

/// A packet that is worth looking at: not from a client to itself, and from an address that
/// packets can come from.
pub open spec fn valid_packet(sender: u32, receiver: u32, addr: SocketAddr) -> bool {
    !(sender == receiver && sender != 0) && is_routable(addr)
}

/// Number of workers that receive packets, on so many processors: between 2 and 4.
pub fn receiver_count(cpus: usize) -> (n: usize)
    ensures
        n == if cpus < 2 {
            2
        } else if cpus > 4 {
            4
        } else {
            cpus
        },
{
    if cpus < 2 {
        2
    } else if cpus > 4 {
        4
    } else {
        cpus
    }
}

/// What a worker does with what it has received.
#[derive(Debug, Clone, Copy, PartialEq, Eq, Structural)]
pub enum WorkerAction {
    /// Handle the packet.
    Handle,
    /// Wait for the next packet.
    Wait,
    /// Report that receiving keeps failing, then wait for the next packet.
    Report,
}

/// A worker that receives packets.
pub struct Worker {
    pub batch: LocalMetricsBatch,
    pub receive_errors: u32,
}

impl Worker {
    /// Nothing has been received.
    pub fn new() -> (worker: Self)
        ensures
            worker.batch@ == Batch::empty(0),
            worker.receive_errors == 0,
    {
        Worker { batch: LocalMetricsBatch::new(), receive_errors: 0 }
    }

    /// Decides what becomes of a packet of so many bytes. Packets of impossible size are counted.
    pub fn on_packet(&mut self, size: usize, metrics: &mut Metrics) -> (action: WorkerAction)
        ensures
            final(self).batch == old(self).batch,
            final(self).receive_errors == 0,
            action == WorkerAction::Handle <==> 8 <= size <= 1472,
            MIN_PACKET_SIZE <= size <= MAX_PACKET_SIZE ==> action == WorkerAction::Handle
                && *final(metrics) == *old(metrics),
            !(MIN_PACKET_SIZE <= size <= MAX_PACKET_SIZE) ==> action == WorkerAction::Wait
                && *final(metrics) == old(metrics).with_counters(
                Counters {
                    invalid_packets: old(metrics).counters.invalid_packets.wrapping_add(1),
                    ..old(metrics).counters
                },
            ),
    {
        self.receive_errors = 0;
        if size >= MIN_PACKET_SIZE && size <= MAX_PACKET_SIZE {
            WorkerAction::Handle
        } else {
            metrics.counters.invalid_packets = metrics.counters.invalid_packets.wrapping_add(1);
            WorkerAction::Wait
        }
    }

    /// Decides what becomes of a failure to receive: more than a hundred in a row are reported.
    pub fn on_error(&mut self, metrics: &mut Metrics) -> (action: WorkerAction)
        requires
            old(self).receive_errors <= REPORTED_ERRORS,
        ensures
            final(self).receive_errors <= REPORTED_ERRORS,
            final(self).batch@ == Batch::empty(old(self).batch@.counter),
            *final(metrics) == old(metrics).with_counters(
                old(self).batch@.added_to(old(metrics).counters),
            ),
            old(self).receive_errors == REPORTED_ERRORS ==> action == WorkerAction::Report
                && final(self).receive_errors == 0,
            action == WorkerAction::Report <==> old(self).receive_errors == 100,
            old(self).receive_errors < REPORTED_ERRORS ==> action == WorkerAction::Wait
                && final(self).receive_errors == old(self).receive_errors + 1,
    {
        self.batch.flush(metrics);
        self.receive_errors = self.receive_errors + 1;
        if self.receive_errors > REPORTED_ERRORS {
            self.receive_errors = 0;
            WorkerAction::Report
        } else {
            WorkerAction::Wait
        }
    }
}

/// Tunnel V3.
pub struct TunnelV3 {
    config: ServerConfig,
    mappings: Table<u32, RelayClient>,
    connection_limiter: ConnectionRateLimiter,
    ping_limiter: RateLimiter,
    maintenance_mode: bool,
    last_command_tick: u64,
    boot: MonotonicClock,
    maintenance_password_sha1: Option<[u8; 20]>,
    quality_analyzers: Table<u32, RelayQuality>,
    heartbeats: u8,
}

impl View for TunnelV3 {
    type V = V3Relay;

    closed spec fn view(&self) -> V3Relay {
        V3Relay {
            config: self.config,
            clients: records(self.mappings@),
            quality: losses(self.quality_analyzers@),
            connections: self.connection_limiter@,
            pings: self.ping_limiter@,
            maintenance: self.maintenance_mode,
            last_command: self.last_command_tick,
            command_digest: match self.maintenance_password_sha1 {
                Some(digest) => Some(digest@),
                None => None,
            },
            heartbeats: self.heartbeats,
            boot: self.boot,
        }
    }
}

/// The state of a tunnel that has just been set up.
pub open spec fn initial(
    config: ServerConfig,
    command_digest: Option<Seq<u8>>,
    boot: MonotonicClock,
) -> V3Relay {
    V3Relay {
        config,
        clients: Map::empty(),
        quality: Map::empty(),
        connections: Throttling::fresh(connection_limits(config.ip_limit as u32)),
        pings: Throttling::fresh(request_limits(60, MAX_PINGS_PER_IP)),
        maintenance: false,
        last_command: 0,
        command_digest,
        heartbeats: 0,
        boot,
    }
}

impl TunnelV3 {
    /// A tunnel with the given configuration.
    pub fn new(config: ServerConfig) -> (tunnel: Self)
        requires
            connection_limits(config.ip_limit as u32).valid(),
        ensures
            tunnel@.wf(),
            tunnel@ == initial(
                config,
                if config.maintenance_password@.len() == 0 {
                    None
                } else {
                    Some(sha1_digest(encode_utf8(config.maintenance_password@)))
                },
                tunnel@.boot,
            ),
    {
        let digest: Option<[u8; 20]> = if config.maintenance_password.as_str().is_empty() {
            None
        } else {
            Some(sha1_of(config.maintenance_password.as_str().as_bytes()))
        };
        TunnelV3::with_password_digest(config, digest)
    }

    /// A tunnel with the given configuration, whose commands are authorized by the given digest.
    pub fn with_password_digest(config: ServerConfig, digest: Option<[u8; 20]>) -> (tunnel: Self)
        requires
            connection_limits(config.ip_limit as u32).valid(),
        ensures
            tunnel@.wf(),
            tunnel@ == initial(
                config,
                match digest {
                    Some(bytes) => Some(bytes@),
                    None => None,
                },
                tunnel@.boot,
            ),
    {
        let tunnel = TunnelV3 {
            connection_limiter: ConnectionRateLimiter::new(config.ip_limit as u32),
            ping_limiter: RateLimiter::new(60, MAX_PINGS_PER_IP),
            mappings: Table::with_tuned_shards(capacity_for(config.max_clients)),
            quality_analyzers: Table::with_tuned_shards(capacity_for(config.max_clients)),
            config,
            maintenance_mode: false,
            last_command_tick: 0,
            boot: MonotonicClock::start(),
            maintenance_password_sha1: digest,
            heartbeats: 0,
        };
        assert(tunnel@.quality =~= Map::<u32, Losses>::empty());
        assert(tunnel@.clients =~= Map::<u32, RelayRecord>::empty());
        tunnel
    }

    /// Reads the sender ID and the receiver ID of a packet.
    pub fn parse_packet_header(packet: &[u8]) -> (ids: Option<(u32, u32)>)
        ensures
            ids == packet_ids(packet@),
    {
        if packet.len() < 8 {
            return None;
        }
        Some(
            (
                read_le_u32(packet[0], packet[1], packet[2], packet[3]),
                read_le_u32(packet[4], packet[5], packet[6], packet[7]),
            ),
        )
    }

    /// Whether a packet is worth looking at.
    pub fn validate_packet(&self, sender_id: u32, receiver_id: u32, addr: &SocketAddr) -> (valid:
        bool)
        ensures
            valid == valid_packet(sender_id, receiver_id, *addr),
    {
        if sender_id == receiver_id && sender_id != 0 {
            return false;
        }
        validate_address(addr)
    }
}

/// What the heartbeat does besides: the address that is requested to announce the tunnel, if it is
/// announced, whether clients that have timed out were removed, and whether statistics are logged.
pub struct Heartbeat {
    pub announce: Option<String>,
    pub cleaned: bool,
    pub log: bool,
}

/// The address that is requested to announce the tunnel.
pub open spec fn relay_url(state: V3Relay) -> Seq<char> {
    announce_url(
        state.config.master_server_url@,
        Announcement {
            version: VERSION,
            name: encoded_component(state.config.name@),
            port: state.config.tunnel_port,
            clients: state.clients.len(),
            max_clients: state.config.max_clients as nat,
            password: encoded_component(state.config.master_password@),
            maintenance: state.maintenance,
        },
    )
}

impl TunnelV3 {
    /// The model has a quality for every analyzer.
    proof fn lemma_qualities(&self)
        ensures
            self@.quality.dom() == self.quality_analyzers@.dom(),
            forall|id: u32| #[trigger]
                self.quality_analyzers@.contains_key(id) ==> self@.quality[id]
                    == counted_losses(self.quality_analyzers@[id]),
    {
        assert(self@.quality.dom() =~= self.quality_analyzers@.dom());
    }

    /// Counts a packet of a client, lost or not.
    fn record_quality(&mut self, id: u32, lost: bool)
        requires
            old(self)@.wf(),
            old(self)@.clients.contains_key(id),
        ensures
            final(self)@.wf(),
            final(self)@ == (V3Relay {
                quality: old(self)@.quality.insert(id, old(self)@.quality[id].with_packet(lost)),
                ..old(self)@
            }),
    {
        proof {
            self.lemma_qualities();
            assert(self@.quality.contains_key(id));
        }
        if let Some(analyzer) = self.quality_analyzers.remove(&id) {
            let mut analyzer = analyzer;
            analyzer.record_packet(lost);
            self.quality_analyzers.insert(id, analyzer);
            proof {
                let after = old(self)@.quality.insert(id, counted_losses(analyzer));
                assert(self@.quality =~= after);
                assert(self@.quality.dom() =~= self@.clients.dom());
            }
        }
    }

    /// Connects a client from an address.
    fn connect(&mut self, id: u32, addr: SocketAddr, now: u64)
        requires
            old(self)@.wf(),
        ensures
            final(self)@.wf(),
            final(self)@ == (V3Relay {
                clients: old(self)@.clients.insert(
                    id,
                    RelayRecord::fresh(Some(addr), TIMEOUT_SECONDS, now),
                ),
                quality: old(self)@.quality.insert(
                    id,
                    Losses { lost: 0, total: 0 },
                ),
                ..old(self)@
            }),
    {
        let client = RelayClient::new_at(Some(addr), TIMEOUT_SECONDS, now);
        proof {
            lemma_records_insert(self.mappings@, id, client);
        }
        self.mappings.insert(id, client);
        let analyzer = RelayQuality::new();
        let ghost quality = counted_losses(analyzer);
        self.quality_analyzers.insert(id, analyzer);
        proof {
            assert(self@.quality =~= old(self)@.quality.insert(id, quality));
            assert(self@.quality.dom() =~= self@.clients.dom());
        }
    }

    /// What is known of a client.
    fn record_of(&self, id: u32) -> (record: Option<RelayRecord>)
        ensures
            record == if self@.clients.contains_key(id) {
                Some(self@.clients[id])
            } else {
                None
            },
    {
        self.mappings.read(
            &id,
            |client: &RelayClient| -> (record: RelayRecord)
                ensures
                    record == client@
                { client.record() },
        )
    }

    /// Records a packet of so many bytes from or to a client.
    fn update(&mut self, id: u32, length: usize, received: bool, now: u64)
        requires
            old(self)@.wf(),
            old(self)@.clients.contains_key(id),
        ensures
            final(self)@.wf(),
            final(self)@ == (V3Relay {
                clients: old(self)@.clients.insert(
                    id,
                    if received {
                        old(self)@.clients[id].heard(now).with_traffic(length, 0)
                    } else {
                        old(self)@.clients[id].with_traffic(0, length)
                    },
                ),
                ..old(self)@
            }),
    {
        let ghost before = self.mappings@;
        if let Some(client) = self.mappings.remove(&id) {
            let updated = if received {
                client.received_at(length, now)
            } else {
                client.sent_at(length, now)
            };
            proof {
                lemma_records_insert(before, id, updated);
            }
            self.mappings.insert(id, updated);
            assert(self@.clients.dom() =~= old(self)@.clients.dom());
        }
    }

    /// Whether a packet of `sender_id` from `remote_addr` asks for a new connection.
    pub fn needs_slot(&self, sender_id: u32, remote_addr: &SocketAddr, now: u64) -> (needed: bool)
        ensures
            needed == self@.needs_slot(sender_id, *remote_addr, now),
    {
        if self.maintenance_mode {
            return false;
        }
        match self.record_of(sender_id) {
            Some(client) => match client.remote_ep {
                Some(endpoint) => endpoint != *remote_addr && client.is_timed_out_at(now),
                None => false,
            },
            None => self.client_count() < self.config.max_clients,
        }
    }

    /// Handles a packet from one client to another at Unix time `now` in seconds, given whether
    /// the address was granted a new connection. Comes back with the datagram that is to be sent:
    /// the packet itself, to the address of the receiver.
    pub fn handle_data_forward_with(
        &mut self,
        sender_id: u32,
        receiver_id: u32,
        packet: &[u8],
        remote_addr: SocketAddr,
        now: u64,
        slot: bool,
        metrics: &mut Metrics,
    ) -> (reply: Option<Datagram>)
        requires
            old(self)@.wf(),
        ensures
            final(self)@.wf(),
            ({
                let before = old(self)@;
                let length = packet@.len() as usize;
                let to = before.destination(
                    sender_id,
                    receiver_id,
                    remote_addr,
                    length,
                    now,
                    slot,
                );
                &&& final(self)@ == before.after_packet(sender_id, remote_addr, length, now, slot)
                &&& *final(metrics) == old(metrics).with_counters(
                    before.counters_after(
                        old(metrics).counters,
                        sender_id,
                        remote_addr,
                        length,
                        now,
                        slot,
                    ),
                )
                &&& reply is Some == to is Some
                &&& reply matches Some(datagram) ==> datagram.payload@ == packet@ && Some(
                    datagram.to,
                ) == to
            }),
    {
        let ghost before = self@;
        let needed = self.needs_slot(sender_id, &remote_addr, now);
        match self.record_of(sender_id) {
            Some(client) => {
                let connected = match client.remote_ep {
                    Some(endpoint) => endpoint == remote_addr,
                    None => false,
                };
                if connected {
                    self.update(sender_id, packet.len(), true, now);
                    self.record_quality(sender_id, false);
                } else if needed && slot {
                    self.connect(sender_id, remote_addr, now);
                } else {
                    return None;
                }
            },
            None => {
                if self.maintenance_mode {
                    return None;
                }
                if !needed {
                    metrics.counters.dropped_packets =
                        metrics.counters.dropped_packets.wrapping_add(1);
                    return None;
                }
                if !slot {
                    metrics.counters.rate_limit_hits =
                        metrics.counters.rate_limit_hits.wrapping_add(1);
                    return None;
                }
                self.connect(sender_id, remote_addr, now);
                metrics.counters.v3_active_clients = self.client_count();
            },
        }
        if let Some(receiver) = self.record_of(receiver_id) {
            if let Some(receiver_ep) = receiver.remote_ep {
                if receiver_ep != remote_addr {
                    return Some(Datagram { payload: copy_of(packet), to: receiver_ep });
                }
            }
        }
        None
    }

    /// Handles a packet from one client to another at Unix time `now` in seconds. An address that
    /// makes a new connection must be within its limit.
    pub fn handle_data_forward(
        &mut self,
        sender_id: u32,
        receiver_id: u32,
        packet: &[u8],
        remote_addr: SocketAddr,
        now: u64,
        metrics: &mut Metrics,
    ) -> (reply: Option<Datagram>)
        requires
            old(self)@.wf(),
        ensures
            final(self)@.wf(),
            exists|slot: bool| #[trigger]
                data_forwarded(
                    old(self)@,
                    final(self)@,
                    *old(metrics),
                    *final(metrics),
                    sender_id,
                    receiver_id,
                    packet@,
                    remote_addr,
                    now,
                    slot,
                    reply,
                ),
    {
        let mut slot = false;
        let ghost before = self@;
        if self.needs_slot(sender_id, &remote_addr, now) {
            slot = self.connection_limiter.try_acquire(&remote_addr.ip);
        }
        let ghost admitted = self@;
        proof {
            assert(admitted == (V3Relay { connections: admitted.connections, ..before }));
            assert(admitted.wf());
        }
        let reply = self.handle_data_forward_with(
            sender_id,
            receiver_id,
            packet,
            remote_addr,
            now,
            slot,
            metrics,
        );
        assert(data_forwarded(
            before,
            self@,
            *old(metrics),
            *metrics,
            sender_id,
            receiver_id,
            packet@,
            remote_addr,
            now,
            slot,
            reply,
        ));
        reply
    }

    /// Records that what a packet led to, of so many bytes, has been sent at Unix time `now` in
    /// seconds, or could not be.
    pub fn on_sent(
        &mut self,
        packet: &[u8],
        length: usize,
        sent: bool,
        now: u64,
        batch: &mut LocalMetricsBatch,
    )
        requires
            old(self)@.wf(),
        ensures
            final(self)@.wf(),
            final(self)@ == match addressee(packet@) {
                Some(receiver) => old(self)@.after_sending(receiver, length, sent),
                None => old(self)@,
            },
            final(batch)@ == if sent {
                old(batch)@.with_v3_tx(length as u64)
            } else {
                old(batch)@
            },
    {
        if sent {
            batch.record_v3_tx(length as u64);
        }
        if let Some((sender_id, receiver_id)) = Self::parse_packet_header(packet) {
            if sender_id == 0 && receiver_id == 0 {
                return;
            }
            if self.record_of(receiver_id).is_some() {
                if sent {
                    self.update(receiver_id, length, false, now);
                } else {
                    self.record_quality(receiver_id, true);
                }
            }
        }
    }

    /// Answers a ping that is within the limit: with its first bytes, to where it came from.
    pub fn handle_ping(
        &self,
        packet: &[u8],
        remote_addr: SocketAddr,
        metrics: &mut Metrics,
    ) -> (reply: Datagram)
        ensures
            reply.payload@ == packet@.take(if packet@.len() < PING_REPLY_LENGTH {
                packet@.len() as int
            } else {
                PING_REPLY_LENGTH as int
            }),
            reply.to == remote_addr,
            *final(metrics) == old(metrics).with_counters(
                Counters {
                    v3_ping_requests: old(metrics).counters.v3_ping_requests.wrapping_add(1),
                    ..old(metrics).counters
                },
            ),
    {
        metrics.counters.v3_ping_requests = metrics.counters.v3_ping_requests.wrapping_add(1);
        Datagram { payload: first_bytes(packet, PING_REPLY_LENGTH), to: remote_addr }
    }

    /// Handles a ping, given whether it is within the limit of its address: if it is, it is
    /// answered.
    pub fn on_ping(
        &self,
        packet: &[u8],
        remote_addr: SocketAddr,
        allowed: bool,
        metrics: &mut Metrics,
    ) -> (reply: Option<Datagram>)
        ensures
            reply is Some == allowed,
            reply matches Some(datagram) ==> datagram.payload@ == packet@.take(
                if packet@.len() < PING_REPLY_LENGTH {
                    packet@.len() as int
                } else {
                    PING_REPLY_LENGTH as int
                },
            ) && datagram.to == remote_addr,
            *final(metrics) == if allowed {
                old(metrics).with_counters(
                    Counters {
                        v3_ping_requests: old(metrics).counters.v3_ping_requests.wrapping_add(1),
                        ..old(metrics).counters
                    },
                )
            } else {
                *old(metrics)
            },
    {
        if allowed {
            Some(self.handle_ping(packet, remote_addr, metrics))
        } else {
            None
        }
    }

    /// Removes the clients that have timed out at Unix time `now` in seconds.
    pub fn cleanup_expired_mappings_at(&mut self, now: u64, metrics: &mut Metrics)
        requires
            old(self)@.wf(),
        ensures
            final(self)@.wf(),
            final(self)@ == old(self)@.cleaned_up(now),
            *final(metrics) == old(metrics).with_counters(
                Counters {
                    v3_active_clients: final(self)@.clients.len() as usize,
                    ..old(metrics).counters
                },
            ),
    {
        let ghost before = self@;
        let ghost after = before.cleaned_up(now);
        let ghost analyzers = self.quality_analyzers@;
        proof {
            self.lemma_qualities();
            lemma_records_dom(self.mappings@);
        }
        self.mappings.retain(
            |_id: &u32, client: &RelayClient| -> (keep: bool)
                ensures
                    keep != client@.timed_out(now)
                { !client.is_timed_out_at(now) },
        );
        let mappings = &self.mappings;
        self.quality_analyzers.retain(
            |id: &u32, _analyzer: &RelayQuality| -> (keep: bool)
                ensures
                    keep == mappings@.contains_key(*id)
                { mappings.contains_key(id) },
        );
        metrics.counters.v3_active_clients = self.client_count();
        self.ping_limiter.reset();
        proof {
            self.lemma_qualities();
            lemma_records_dom(self.mappings@);
            assert(self@.clients =~= after.clients);
            assert forall|id: u32| #[trigger]
                self.quality_analyzers@.contains_key(id) <==> after.clients.contains_key(id) by {
                if analyzers.contains_key(id) {
                    let analyzer = analyzers[id];
                    assert(self.quality_analyzers@.contains_key(id) == self.mappings@.contains_key(
                        id,
                    ));
                }
            }
            assert(self@.quality =~= after.quality);
            lemma_submap_len(after.clients, before.clients);
            assert(after.quality.dom() =~= after.clients.dom());
        }
    }

    /// Executes a command packet when the server has been up for so many seconds, at Unix time
    /// `now` in seconds.
    pub fn execute_command_at(
        &mut self,
        packet: &[u8],
        uptime_secs: u64,
        now: u64,
        metrics: &mut Metrics,
    )
        requires
            old(self)@.wf(),
            packet@.len() >= COMMAND_LENGTH,
        ensures
            final(self)@.wf(),
            ({
                let digest = packet@.subrange(9, COMMAND_LENGTH as int);
                &&& final(self)@ == old(self)@.after_command(packet@[8], digest, uptime_secs, now)
                &&& if old(self)@.obeys(digest, uptime_secs) && packet@[8] == 1 {
                    *final(metrics) == old(metrics).with_counters(
                        Counters {
                            v3_active_clients: final(self)@.clients.len() as usize,
                            ..old(metrics).counters
                        },
                    )
                } else {
                    *final(metrics) == *old(metrics)
                }
            }),
    {
        if uptime_secs.saturating_sub(self.last_command_tick) < COMMAND_RATE_LIMIT_SECS {
            return;
        }
        match self.maintenance_password_sha1 {
            None => {},
            Some(expected) => {
                self.last_command_tick = uptime_secs;
                let digest = vstd::slice::slice_subrange(packet, 9, COMMAND_LENGTH);
                if is_digest(digest, &expected) {
                    let command: u8 = packet[8];
                    if command == 0 {
                        self.maintenance_mode = !self.maintenance_mode;
                    } else if command == 1 {
                        self.cleanup_expired_mappings_at(now, metrics);
                    }
                }
            },
        }
    }

    /// Handles a received packet when the server has been up for so many seconds, at Unix time
    /// `now` in seconds. Comes back with the datagram that is to be sent.
    pub fn on_receive_at(
        &mut self,
        packet: &[u8],
        remote_addr: SocketAddr,
        uptime_secs: u64,
        now: u64,
        metrics: &mut Metrics,
        batch: &mut LocalMetricsBatch,
    ) -> (reply: Option<Datagram>)
        requires
            old(self)@.wf(),
        ensures
            final(self)@.wf(),
            packet_received(
                old(self)@,
                final(self)@,
                *old(metrics),
                *final(metrics),
                packet@,
                remote_addr,
                uptime_secs,
                now,
                reply,
            ),
            final(batch)@ == if packet@.len() < 8 {
                old(batch)@
            } else {
                old(batch)@.with_v3_rx(packet@.len() as u64)
            },
    {
        match Self::parse_packet_header(packet) {
            None => None,
            Some((sender_id, receiver_id)) => {
                batch.record_v3_rx(packet.len() as u64);
                if sender_id == 0 && receiver_id == u32::MAX && packet.len() >= COMMAND_LENGTH {
                    self.execute_command_at(packet, uptime_secs, now, metrics);
                    return None;
                }
                if !self.validate_packet(sender_id, receiver_id, &remote_addr) {
                    return None;
                }
                if sender_id == 0 && receiver_id == 0 {
                    if packet.len() == PING_LENGTH {
                        let allowed = self.ping_limiter.check_and_increment(&remote_addr.ip);
                        return self.on_ping(packet, remote_addr, allowed, metrics);
                    }
                    return None;
                }
                self.handle_data_forward(
                    sender_id,
                    receiver_id,
                    packet,
                    remote_addr,
                    now,
                    metrics,
                )
            },
        }
    }

    /// Handles a received packet.
    pub fn on_receive(
        &mut self,
        packet: &[u8],
        remote_addr: SocketAddr,
        metrics: &mut Metrics,
        batch: &mut LocalMetricsBatch,
    ) -> (reply: Option<Datagram>)
        requires
            old(self)@.wf(),
        ensures
            final(self)@.wf(),
            exists|at: std::time::Instant, now: u64| #[trigger]
                packet_received(
                    old(self)@,
                    final(self)@,
                    *old(metrics),
                    *final(metrics),
                    packet@,
                    remote_addr,
                    old(self)@.boot.seconds(at),
                    now,
                    reply,
                ),
            final(batch)@ == if packet@.len() < 8 {
                old(batch)@
            } else {
                old(batch)@.with_v3_rx(packet@.len() as u64)
            },
    {
        let uptime_secs: u64 = self.boot.now_secs();
        let now: u64 = relay_timestamp();
        let reply = self.on_receive_at(packet, remote_addr, uptime_secs, now, metrics, batch);
        proof {
            let at = choose|at: std::time::Instant| uptime_secs == #[trigger] old(self).boot.seconds(
                at,
            );
            assert(packet_received(
                old(self)@,
                self@,
                *old(metrics),
                *metrics,
                packet@,
                remote_addr,
                old(self)@.boot.seconds(at),
                now,
                reply,
            ));
        }
        reply
    }

    /// The address that is requested to announce the tunnel.
    pub fn master_announce_url(&self) -> (url: String)
        ensures
            url@ == relay_url(self@),
    {
        let name = encode_component(self.config.name.as_str());
        let password = encode_component(self.config.master_password.as_str());
        build_url(
            self.config.master_server_url.as_str(),
            VERSION,
            name.as_str(),
            self.config.tunnel_port,
            self.client_count(),
            self.config.max_clients,
            password.as_str(),
            self.maintenance_mode,
        )
    }

    /// Does the work of a heartbeat at Unix time `now` in seconds: every third one removes the
    /// clients that have timed out, every one announces the tunnel unless that is turned off, and
    /// every fifth one logs statistics.
    pub fn heartbeat_at(&mut self, now: u64, metrics: &mut Metrics) -> (heartbeat: Heartbeat)
        requires
            old(self)@.wf(),
        ensures
            final(self)@.wf(),
            ({
                let counted = V3Relay {
                    heartbeats: old(self)@.heartbeats.wrapping_add(1),
                    ..old(self)@
                };
                if counted.heartbeats % 3 == 0 {
                    &&& final(self)@ == counted.cleaned_up(now)
                    &&& *final(metrics) == old(metrics).with_counters(
                        Counters {
                            v3_active_clients: final(self)@.clients.len() as usize,
                            ..old(metrics).counters
                        },
                    )
                } else {
                    final(self)@ == counted && *final(metrics) == *old(metrics)
                }
            }),
            match heartbeat.announce {
                Some(url) => !old(self)@.config.no_master_announce && url@ == relay_url(
                    final(self)@,
                ),
                None => old(self)@.config.no_master_announce,
            },
            heartbeat.cleaned == (final(self)@.heartbeats % 3 == 0),
            heartbeat.log == (final(self)@.heartbeats % 5 == 0),
    {
        self.heartbeats = self.heartbeats.wrapping_add(1);
        let cleaned = self.heartbeats % 3 == 0;
        if cleaned {
            self.cleanup_expired_mappings_at(now, metrics);
        }
        let announce: Option<String> = if self.config.no_master_announce {
            None
        } else {
            Some(self.master_announce_url())
        };
        Heartbeat { announce, cleaned, log: self.heartbeats % 5 == 0 }
    }

    /// Number of connected clients.
    pub fn client_count(&self) -> (n: usize)
        ensures
            n == self@.clients.len(),
            self@.clients.dom().finite(),
    {
        proof {
            lemma_records_dom(self.mappings@);
        }
        self.mappings.len()
    }

    /// Number of addresses whose connections are counted.
    pub fn tracked_ip_count(&self) -> (n: usize)
        ensures
            n == self@.connections.known().len(),
    {
        self.connection_limiter.get_active_ip_count()
    }

    /// Whether the tunnel is in maintenance mode.
    pub fn maintenance_mode(&self) -> (on: bool)
        ensures
            on == self@.maintenance,
    {
        self.maintenance_mode
    }
}

/// What a packet from one client to another leads to, given whether the address was granted a new
/// connection: the state, the counters, and the datagram that is to be sent.
pub open spec fn data_forwarded(
    before: V3Relay,
    after: V3Relay,
    metrics: Metrics,
    metrics_after: Metrics,
    sender: u32,
    receiver: u32,
    packet: Seq<u8>,
    addr: SocketAddr,
    now: u64,
    slot: bool,
    reply: Option<Datagram>,
) -> bool {
    let length = packet.len() as usize;
    let admitted = V3Relay { connections: after.connections, ..before };
    let to = admitted.destination(sender, receiver, addr, length, now, slot);
    &&& if before.needs_slot(sender, addr, now) {
        asked(before.connections, after.connections, addr.ip.spec_key(), slot)
    } else {
        after.connections == before.connections
    }
    &&& after == admitted.after_packet(sender, addr, length, now, slot)
    &&& metrics_after == metrics.with_counters(
        admitted.counters_after(metrics.counters, sender, addr, length, now, slot),
    )
    &&& reply is Some == to is Some
    &&& reply matches Some(datagram) ==> datagram.payload@ == packet && Some(datagram.to) == to
}

/// What a received packet leads to: the state, the counters, and the datagram that is to be sent.
pub open spec fn packet_received(
    before: V3Relay,
    after: V3Relay,
    metrics: Metrics,
    metrics_after: Metrics,
    packet: Seq<u8>,
    addr: SocketAddr,
    uptime_secs: u64,
    now: u64,
    reply: Option<Datagram>,
) -> bool {
    match packet_ids(packet) {
        None => after == before && metrics_after == metrics && reply is None,
        Some((sender, receiver)) => {
            if sender == 0 && receiver == u32::MAX && packet.len() >= COMMAND_LENGTH {
                let digest = packet.subrange(9, COMMAND_LENGTH as int);
                &&& after == before.after_command(packet[8], digest, uptime_secs, now)
                &&& metrics_after == if before.obeys(digest, uptime_secs) && packet[8] == 1 {
                    metrics.with_counters(
                        Counters {
                            v3_active_clients: after.clients.len() as usize,
                            ..metrics.counters
                        },
                    )
                } else {
                    metrics
                }
                &&& reply is None
            } else if !valid_packet(sender, receiver, addr) {
                after == before && metrics_after == metrics && reply is None
            } else if sender == 0 && receiver == 0 {
                if packet.len() == PING_LENGTH {
                    &&& asked(before.pings, after.pings, addr.ip.spec_key(), reply is Some)
                    &&& after == (V3Relay { pings: after.pings, ..before })
                    &&& metrics_after == if reply is Some {
                        metrics.with_counters(
                            Counters {
                                v3_ping_requests: metrics.counters.v3_ping_requests.wrapping_add(
                                    1,
                                ),
                                ..metrics.counters
                            },
                        )
                    } else {
                        metrics
                    }
                    &&& reply matches Some(datagram) ==> datagram.payload@ == packet.take(
                        PING_REPLY_LENGTH as int,
                    ) && datagram.to == addr
                } else {
                    after == before && metrics_after == metrics && reply is None
                }
            } else {
                exists|slot: bool| #[trigger]
                    data_forwarded(
                        before,
                        after,
                        metrics,
                        metrics_after,
                        sender,
                        receiver,
                        packet,
                        addr,
                        now,
                        slot,
                        reply,
                    )
            }
        },
    }
}

/// A packet is never sent back to where it came from, and it goes nowhere unless its sender is
/// accepted.
pub proof fn law_never_back_to_the_sender(
    state: V3Relay,
    sender: u32,
    receiver: u32,
    addr: SocketAddr,
    length: usize,
    now: u64,
    slot: bool,
)
    ensures
        state.destination(sender, receiver, addr, length, now, slot) != Some(addr),
        state.destination(sender, receiver, addr, length, now, slot) is Some ==> state.accepts(
            sender,
            addr,
            now,
            slot,
        ),
{
}

/// Nobody can take over the ID of a client that has not timed out: its address stays, and packets
/// from any other address are not accepted.
pub proof fn law_active_client_keeps_its_address(
    state: V3Relay,
    sender: u32,
    addr: SocketAddr,
    length: usize,
    now: u64,
    slot: bool,
)
    requires
        state.clients.contains_key(sender),
        state.maintenance || !state.clients[sender].timed_out(now),
    ensures
        state.after_packet(sender, addr, length, now, slot).clients[sender].remote_ep
            == state.clients[sender].remote_ep,
        state.accepts(sender, addr, now, slot) <==> state.clients[sender].remote_ep == Some(addr),
{
}

/// In maintenance mode no connection is made and none is lost: exactly the connected clients are
/// accepted, and a packet from one to another still arrives.
pub proof fn law_maintenance_keeps_connected_clients(
    state: V3Relay,
    sender: u32,
    receiver: u32,
    addr: SocketAddr,
    length: usize,
    now: u64,
    slot: bool,
)
    requires
        state.maintenance,
    ensures
        state.accepts(sender, addr, now, slot) <==> state.is_connected(sender, addr),
        state.after_packet(sender, addr, length, now, slot).clients.dom() == state.clients.dom(),
        state.is_connected(sender, addr) && sender != receiver ==> state.destination(
            sender,
            receiver,
            addr,
            length,
            now,
            slot,
        ) == state.forward_to(receiver, addr),
{
    assert(state.after_packet(sender, addr, length, now, slot).clients.dom()
        =~= state.clients.dom());
}

/// Whatever packets arrive, there are never more clients than the server admits.
pub proof fn law_client_limit_is_kept(
    state: V3Relay,
    sender: u32,
    addr: SocketAddr,
    length: usize,
    now: u64,
    slot: bool,
)
    requires
        state.wf(),
        state.clients.len() <= state.config.max_clients,
    ensures
        state.after_packet(sender, addr, length, now, slot).clients.len()
            <= state.config.max_clients,
{
    if state.clients.contains_key(sender) {
        assert(state.after_packet(sender, addr, length, now, slot).clients.dom()
            =~= state.clients.dom());
    }
}

/// A packet affects no client but its sender.
pub proof fn law_packets_affect_only_their_sender(
    state: V3Relay,
    sender: u32,
    addr: SocketAddr,
    length: usize,
    now: u64,
    slot: bool,
    other: u32,
)
    requires
        other != sender,
    ensures
        ({
            let after = state.after_packet(sender, addr, length, now, slot);
            &&& after.clients.contains_key(other) == state.clients.contains_key(other)
            &&& after.clients[other] == state.clients[other]
            &&& after.quality[other] == state.quality[other]
        }),
{
}

/// Toggling maintenance mode twice, a minute apart, leaves it as it was.
pub proof fn law_toggling_twice_restores(
    state: V3Relay,
    digest: Seq<u8>,
    first: u64,
    second: u64,
    now: u64,
)
    requires
        state.obeys(digest, first),
        second - first >= COMMAND_RATE_LIMIT_SECS,
    ensures
        state.after_command(0, digest, first, now).maintenance == !state.maintenance,
        state.after_command(0, digest, first, now).after_command(
            0,
            digest,
            second,
            now,
        ).maintenance == state.maintenance,
{
}

/// Only a command with the right digest has any effect but on when the next one is accepted.
pub proof fn law_wrong_digest_changes_nothing(
    state: V3Relay,
    command: u8,
    digest: Seq<u8>,
    uptime_secs: u64,
    now: u64,
)
    requires
        state.command_digest != Some(digest),
    ensures
        state.after_command(command, digest, uptime_secs, now) == (V3Relay {
            last_command: state.after_command(command, digest, uptime_secs, now).last_command,
            ..state
        }),
{
}

/// A cleanup removes exactly the clients that have timed out, and doing it again changes nothing.
pub proof fn law_cleanup_removes_exactly_the_expired(state: V3Relay, now: u64, id: u32)
    ensures
        state.cleaned_up(now).clients.contains_key(id) <==> state.clients.contains_key(id)
            && !state.clients[id].timed_out(now),
        state.cleaned_up(now).clients.contains_key(id) ==> state.cleaned_up(now).clients[id]
            == state.clients[id],
        state.cleaned_up(now).cleaned_up(now).clients == state.cleaned_up(now).clients,
{
    assert(state.cleaned_up(now).cleaned_up(now).clients =~= state.cleaned_up(now).clients);
}

/// Two clients reach each other once each of them has sent a packet that was accepted: a packet of
/// one arrives at the address of the other, and back.
pub proof fn law_two_clients_reach_each_other(
    state: V3Relay,
    one: u32,
    two: u32,
    a: SocketAddr,
    b: SocketAddr,
    length: usize,
    first: u64,
    second: u64,
    later: u64,
    slot: bool,
)
    requires
        one != two,
        a != b,
        state.accepts(one, a, first, slot),
        state.after_packet(one, a, length, first, slot).accepts(two, b, second, slot),
    ensures
        ({
            let connected = state.after_packet(one, a, length, first, slot).after_packet(
                two,
                b,
                length,
                second,
                slot,
            );
            &&& connected.is_connected(one, a) && connected.is_connected(two, b)
            &&& connected.destination(one, two, a, length, later, slot) == Some(b)
            &&& connected.destination(two, one, b, length, later, slot) == Some(a)
        }),
{
}

/// A client that asks when there is room is connected, if its address is granted a connection.
pub proof fn law_new_client_is_connected(
    state: V3Relay,
    sender: u32,
    addr: SocketAddr,
    length: usize,
    now: u64,
)
    requires
        !state.maintenance,
        !state.clients.contains_key(sender),
        state.clients.len() < state.config.max_clients,
    ensures
        state.needs_slot(sender, addr, now),
        state.after_packet(sender, addr, length, now, true).is_connected(sender, addr),
        state.after_packet(sender, addr, length, now, false) == state,
{
}

/// The IDs of a packet are its first eight bytes, each ID with its low byte first; a packet with
/// fewer bytes has none.
pub proof fn law_header_is_read(packet: Seq<u8>, sender: u32, receiver: u32)
    ensures
        packet.len() < 8 ==> packet_ids(packet) is None && addressee(packet) is None,
        packet.len() >= 8 && packet[0] == sender % 256 && packet[1] == sender / 256 % 256
            && packet[2] == sender / 65_536 % 256 && packet[3] == sender / 16_777_216 && packet[4]
            == receiver % 256 && packet[5] == receiver / 256 % 256 && packet[6] == receiver / 65_536
            % 256 && packet[7] == receiver / 16_777_216 ==> packet_ids(packet) == Some(
            (sender, receiver),
        ) && addressee(packet) == if sender == 0 && receiver == 0 {
            None
        } else {
            Some(receiver)
        },
{
    crate::packet::law_le_u32_is_read_back(sender);
    crate::packet::law_le_u32_is_read_back(receiver);
}

/// A packet of a connected client renews it: from then on, for as long as its timeout, it has not
/// timed out, whatever is cleaned up it stays, and nobody else can use its ID.
pub proof fn law_packet_renews_its_client(
    before: V3Relay,
    after: V3Relay,
    metrics: Metrics,
    metrics_after: Metrics,
    sender: u32,
    receiver: u32,
    packet: Seq<u8>,
    addr: SocketAddr,
    now: u64,
    slot: bool,
    reply: Option<Datagram>,
    later: u64,
)
    requires
        before.wf(),
        before.clients.contains_key(sender),
        before.clients[sender].remote_ep == Some(addr),
        packet.len() <= usize::MAX,
        data_forwarded(
            before,
            after,
            metrics,
            metrics_after,
            sender,
            receiver,
            packet,
            addr,
            now,
            slot,
            reply,
        ),
    ensures
        after.clients.dom() == before.clients.dom(),
        after.clients[sender].last_receive == now,
        after.clients[sender].remote_ep == Some(addr),
        after.clients[sender].timeout == before.clients[sender].timeout,
        after.clients[sender].traffic.packets == before.clients[sender].traffic.packets.wrapping_add(
            1,
        ),
        after.clients[sender].traffic.received
            == before.clients[sender].traffic.received.wrapping_add(packet.len() as u64),
        after.clients[sender].traffic.sent == before.clients[sender].traffic.sent,
        after.connections == before.connections,
        metrics_after == metrics,
        0 < before.clients[sender].timeout && later < now + before.clients[sender].timeout ==> {
            &&& !after.clients[sender].timed_out(later)
            &&& after.cleaned_up(later).clients.contains_key(sender)
            &&& after.cleaned_up(later).clients[sender] == after.clients[sender]
            &&& forall|other: SocketAddr, granted: bool|
                other != addr ==> !#[trigger] after.accepts(sender, other, later, granted)
        },
        later >= now + before.clients[sender].timeout ==> {
            &&& after.clients[sender].timed_out(later)
            &&& !after.cleaned_up(later).clients.contains_key(sender)
        },
{
    assert(after.clients.dom() =~= before.clients.dom());
}

/// A client that is not known yet gets in if there is room, outside of maintenance mode, and if
/// its address is granted a connection: it is heard of at that address and time, times out after
/// 30 seconds, and is counted. Otherwise nothing changes but the count of what was turned away.
pub proof fn law_new_client_gets_in_if_there_is_room(
    before: V3Relay,
    after: V3Relay,
    metrics: Metrics,
    metrics_after: Metrics,
    sender: u32,
    receiver: u32,
    packet: Seq<u8>,
    addr: SocketAddr,
    now: u64,
    slot: bool,
    reply: Option<Datagram>,
)
    requires
        before.wf(),
        !before.clients.contains_key(sender),
        data_forwarded(
            before,
            after,
            metrics,
            metrics_after,
            sender,
            receiver,
            packet,
            addr,
            now,
            slot,
            reply,
        ),
    ensures
        !before.maintenance && before.clients.len() < before.config.max_clients ==> asked(
            before.connections,
            after.connections,
            addr.ip.spec_key(),
            slot,
        ),
        !before.maintenance && before.clients.len() < before.config.max_clients && slot ==> {
            &&& after.clients == before.clients.insert(
                sender,
                RelayRecord {
                    remote_ep: Some(addr),
                    last_receive: now,
                    timeout: 30,
                    traffic: Traffic { packets: 0, received: 0, sent: 0 },
                },
            )
            &&& after.clients.len() == before.clients.len() + 1
            &&& after.quality[sender].lost == 0 && after.quality[sender].total == 0
            &&& metrics_after.counters == (Counters {
                v3_active_clients: (before.clients.len() + 1) as usize,
                ..metrics.counters
            })
        },
        before.maintenance || before.clients.len() >= before.config.max_clients || !slot ==> {
            &&& after.clients == before.clients
            &&& after.quality == before.quality
            &&& reply is None
            &&& metrics_after.counters.v3_active_clients == metrics.counters.v3_active_clients
        },
        before.maintenance ==> after == before && metrics_after == metrics,
        !before.maintenance && before.clients.len() >= before.config.max_clients ==> after == before
            && metrics_after.counters == (Counters {
            dropped_packets: metrics.counters.dropped_packets.wrapping_add(1),
            ..metrics.counters
        }),
        !before.maintenance && before.clients.len() < before.config.max_clients && !slot
            ==> metrics_after.counters == (Counters {
            rate_limit_hits: metrics.counters.rate_limit_hits.wrapping_add(1),
            ..metrics.counters
        }),
{
}

/// An ID that is used from another address changes hands only once its client has been silent for
/// its timeout, outside of maintenance mode, and if the new address is granted a connection: it
/// then belongs to a new client. Otherwise nothing changes but what the address has asked for.
pub proof fn law_id_changes_hands_only_after_the_timeout(
    before: V3Relay,
    after: V3Relay,
    metrics: Metrics,
    metrics_after: Metrics,
    sender: u32,
    receiver: u32,
    packet: Seq<u8>,
    addr: SocketAddr,
    now: u64,
    slot: bool,
    reply: Option<Datagram>,
)
    requires
        before.wf(),
        before.clients.contains_key(sender),
        before.clients[sender].remote_ep is Some,
        before.clients[sender].remote_ep != Some(addr),
        data_forwarded(
            before,
            after,
            metrics,
            metrics_after,
            sender,
            receiver,
            packet,
            addr,
            now,
            slot,
            reply,
        ),
    ensures
        ({
            let silent = before.clients[sender].last_receive + before.clients[sender].timeout <= now
                || before.clients[sender].timeout == 0;
            &&& !before.maintenance && silent ==> asked(
                before.connections,
                after.connections,
                addr.ip.spec_key(),
                slot,
            )
            &&& !before.maintenance && silent && slot ==> after.clients == before.clients.insert(
                sender,
                RelayRecord {
                    remote_ep: Some(addr),
                    last_receive: now,
                    timeout: 30,
                    traffic: Traffic { packets: 0, received: 0, sent: 0 },
                },
            )
            &&& before.maintenance || !silent || !slot ==> after.clients == before.clients
                && after.quality == before.quality && reply is None
            &&& before.maintenance || !silent ==> after == before
            &&& metrics_after == metrics
        }),
{
}

/// A packet that is let in goes unchanged to the address of its receiver, and nowhere else: not if
/// the receiver is unknown, and not back to where it came from. The packet of a connected client
/// is always let in.
pub proof fn law_packets_reach_their_receiver(
    before: V3Relay,
    after: V3Relay,
    metrics: Metrics,
    metrics_after: Metrics,
    sender: u32,
    receiver: u32,
    packet: Seq<u8>,
    addr: SocketAddr,
    now: u64,
    slot: bool,
    reply: Option<Datagram>,
    to: SocketAddr,
)
    requires
        before.wf(),
        before.clients.contains_key(sender),
        before.clients[sender].remote_ep == Some(addr),
        receiver != sender,
        data_forwarded(
            before,
            after,
            metrics,
            metrics_after,
            sender,
            receiver,
            packet,
            addr,
            now,
            slot,
            reply,
        ),
    ensures
        before.clients.contains_key(receiver) && before.clients[receiver].remote_ep == Some(to) && to
            != addr ==> (reply matches Some(datagram) && datagram.payload@ == packet && datagram.to
            == to),
        !before.clients.contains_key(receiver) || before.clients[receiver].remote_ep == Some(addr)
            || before.clients[receiver].remote_ep is None ==> reply is None,
{
}

/// Whatever is sent of a packet is the packet itself, to the address at which its receiver is
/// connected, which is not the one that it came from; and its sender is connected from there.
pub proof fn law_what_is_sent_comes_from_a_client(
    before: V3Relay,
    after: V3Relay,
    metrics: Metrics,
    metrics_after: Metrics,
    sender: u32,
    receiver: u32,
    packet: Seq<u8>,
    addr: SocketAddr,
    now: u64,
    slot: bool,
    reply: Option<Datagram>,
)
    requires
        before.wf(),
        data_forwarded(
            before,
            after,
            metrics,
            metrics_after,
            sender,
            receiver,
            packet,
            addr,
            now,
            slot,
            reply,
        ),
    ensures
        reply matches Some(datagram) ==> {
            &&& datagram.payload@ == packet
            &&& datagram.to != addr
            &&& after.clients.contains_key(receiver) && after.clients[receiver].remote_ep == Some(
                datagram.to,
            )
            &&& after.clients.contains_key(sender) && after.clients[sender].remote_ep == Some(addr)
        },
        forall|other: u32|
            other != sender ==> #[trigger] after.clients.contains_key(other)
                == before.clients.contains_key(other),
        forall|other: u32|
            other != sender && before.clients.contains_key(other) ==> #[trigger] after.clients[other]
                == before.clients[other],
        after == (V3Relay {
            clients: after.clients,
            quality: after.quality,
            connections: after.connections,
            ..before
        }),
        metrics_after == (Metrics { counters: metrics_after.counters, ..metrics }),
{
}

/// A ping is a packet of 50 bytes that starts with eight zeros. If its address is granted a token,
/// its first twelve bytes go back to where it came from; it changes nothing but what the address
/// has asked for, and the count of pings.
pub proof fn law_pings_are_echoed(
    before: V3Relay,
    after: V3Relay,
    metrics: Metrics,
    metrics_after: Metrics,
    packet: Seq<u8>,
    addr: SocketAddr,
    uptime_secs: u64,
    now: u64,
    reply: Option<Datagram>,
)
    requires
        packet.len() == 50,
        forall|i: int| 0 <= i < 8 ==> #[trigger] packet[i] == 0,
        is_routable(addr),
        packet_received(
            before,
            after,
            metrics,
            metrics_after,
            packet,
            addr,
            uptime_secs,
            now,
            reply,
        ),
    ensures
        asked(before.pings, after.pings, addr.ip.spec_key(), reply is Some),
        after == (V3Relay { pings: after.pings, ..before }),
        reply matches Some(datagram) ==> {
            &&& datagram.to == addr
            &&& datagram.payload@.len() == 12
            &&& forall|i: int| 0 <= i < 12 ==> #[trigger] datagram.payload@[i] == packet[i]
            &&& metrics_after.counters == (Counters {
                v3_ping_requests: metrics.counters.v3_ping_requests.wrapping_add(1),
                ..metrics.counters
            })
        },
        reply is None ==> metrics_after == metrics,
{
    assert(packet[0] == 0 && packet[1] == 0 && packet[2] == 0 && packet[3] == 0 && packet[4] == 0
        && packet[5] == 0 && packet[6] == 0 && packet[7] == 0);
}

/// What is too short, comes from a client to itself or from an address that packets cannot come
/// from, or has both IDs 0 without being a ping, leads to nothing at all, unless it is a command.
pub proof fn law_other_packets_are_ignored(
    before: V3Relay,
    after: V3Relay,
    metrics: Metrics,
    metrics_after: Metrics,
    packet: Seq<u8>,
    addr: SocketAddr,
    uptime_secs: u64,
    now: u64,
    reply: Option<Datagram>,
    sender: u32,
    receiver: u32,
)
    requires
        packet.len() < 8 || (packet_ids(packet) == Some((sender, receiver)) && (sender != 0
            || receiver != u32::MAX || packet.len() < 29) && (sender == receiver && sender != 0
            || !is_routable(addr) || sender == 0 && receiver == 0 && packet.len() != 50)),
        packet_received(
            before,
            after,
            metrics,
            metrics_after,
            packet,
            addr,
            uptime_secs,
            now,
            reply,
        ),
    ensures
        after == before,
        metrics_after == metrics,
        reply is None,
{
}

/// Every other packet is one from a client to another, and what it leads to is decided by the IDs
/// in its header and the address that it comes from.
pub proof fn law_data_packets_are_forwarded(
    before: V3Relay,
    after: V3Relay,
    metrics: Metrics,
    metrics_after: Metrics,
    packet: Seq<u8>,
    addr: SocketAddr,
    uptime_secs: u64,
    now: u64,
    reply: Option<Datagram>,
    sender: u32,
    receiver: u32,
)
    requires
        packet_ids(packet) == Some((sender, receiver)),
        sender != receiver,
        sender != 0 || receiver != u32::MAX || packet.len() < 29,
        is_routable(addr),
        packet_received(
            before,
            after,
            metrics,
            metrics_after,
            packet,
            addr,
            uptime_secs,
            now,
            reply,
        ),
    ensures
        exists|slot: bool| #[trigger]
            data_forwarded(
                before,
                after,
                metrics,
                metrics_after,
                sender,
                receiver,
                packet,
                addr,
                now,
                slot,
                reply,
            ),
{
}

/// A command is a packet of at least 29 bytes from ID 0 to the largest ID. It is obeyed if bytes 9
/// to 28 are the digest of the password and at least 60 seconds have passed since the last one that
/// was looked at: byte 8 says whether maintenance mode is toggled or clients that have timed out
/// are removed. It is never answered, and without the digest it changes nothing but the time of
/// the last one.
pub proof fn law_commands_need_the_digest(
    before: V3Relay,
    after: V3Relay,
    metrics: Metrics,
    metrics_after: Metrics,
    packet: Seq<u8>,
    addr: SocketAddr,
    uptime_secs: u64,
    now: u64,
    reply: Option<Datagram>,
)
    requires
        packet.len() >= 29,
        packet_ids(packet) == Some((0u32, u32::MAX)),
        packet_received(
            before,
            after,
            metrics,
            metrics_after,
            packet,
            addr,
            uptime_secs,
            now,
            reply,
        ),
    ensures
        ({
            let authorized = before.command_digest == Some(packet.subrange(9, 29)) && uptime_secs
                >= before.last_command + 60;
            &&& reply is None
            &&& after.maintenance == (before.maintenance != (authorized && packet[8] == 0))
            &&& !authorized || packet[8] != 1 ==> after.clients == before.clients && after.quality
                == before.quality && after.pings == before.pings && metrics_after == metrics
            &&& authorized && packet[8] == 1 ==> after == (V3Relay {
                last_command: uptime_secs,
                ..before.cleaned_up(now)
            }) && metrics_after.counters == (Counters {
                v3_active_clients: after.clients.len() as usize,
                ..metrics.counters
            })
            &&& after.last_command == if before.command_digest is Some && uptime_secs
                >= before.last_command + 60 {
                uptime_secs
            } else {
                before.last_command
            }
            &&& after == (V3Relay {
                clients: after.clients,
                quality: after.quality,
                pings: after.pings,
                maintenance: after.maintenance,
                last_command: after.last_command,
                ..before
            })
        }),
{
}

/// Cleaning up removes exactly the clients that have been silent for their timeout, and forgets
/// the pings of all addresses. Nothing else changes.
pub proof fn law_cleanup_keeps_whoever_was_heard(state: V3Relay, now: u64, id: u32)
    requires
        state.wf(),
    ensures
        ({
            let after = state.cleaned_up(now);
            &&& after.clients.contains_key(id) <==> state.clients.contains_key(id) && 0
                < state.clients[id].timeout && now < state.clients[id].last_receive
                + state.clients[id].timeout
            &&& after.quality.contains_key(id) <==> after.clients.contains_key(id)
            &&& after.clients.contains_key(id) ==> after.clients[id] == state.clients[id]
                && after.quality[id] == state.quality[id]
            &&& forall|key: crate::addr::IpKey| !#[trigger] after.pings.granted.contains_key(key)
            &&& after.pings.limits == state.pings.limits
            &&& after == (V3Relay {
                clients: after.clients,
                quality: after.quality,
                pings: after.pings,
                ..state
            })
        }),
{
    assert(state.quality.contains_key(id) <==> state.clients.contains_key(id));
}

/// A packet that was sent is counted for its receiver, and one that could not be sent is counted
/// as lost; nothing else changes.
pub proof fn law_sent_packets_are_counted(state: V3Relay, receiver: u32, length: usize, sent: bool)
    requires
        state.wf(),
    ensures
        ({
            let after = state.after_sending(receiver, length, sent);
            &&& !state.clients.contains_key(receiver) ==> after == state
            &&& state.clients.contains_key(receiver) && sent ==> after == (V3Relay {
                clients: state.clients.insert(
                    receiver,
                    RelayRecord {
                        traffic: Traffic {
                            packets: state.clients[receiver].traffic.packets.wrapping_add(1),
                            received: state.clients[receiver].traffic.received,
                            sent: state.clients[receiver].traffic.sent.wrapping_add(length as u64),
                        },
                        ..state.clients[receiver]
                    },
                ),
                ..state
            })
            &&& state.clients.contains_key(receiver) && !sent ==> after == (V3Relay {
                quality: state.quality.insert(receiver, after.quality[receiver]),
                ..state
            })
            &&& state.clients.contains_key(receiver) && !sent && state.quality[receiver].total
                < 10_000 ==> after.quality[receiver].lost == state.quality[receiver].lost + 1
                && after.quality[receiver].total == state.quality[receiver].total + 1
        }),
{
    assert(state.quality.contains_key(receiver) <==> state.clients.contains_key(receiver));
}

/// A new tunnel has no clients, is not in maintenance mode, and lets each address send 20 pings
/// and make as many connections as are configured in a minute.
pub proof fn law_new_tunnel_is_empty(
    config: ServerConfig,
    command_digest: Option<Seq<u8>>,
    boot: MonotonicClock,
)
    ensures
        ({
            let state = initial(config, command_digest, boot);
            &&& state.config == config && state.command_digest == command_digest && state.boot
                == boot
            &&& state.clients == Map::<u32, RelayRecord>::empty()
            &&& !state.maintenance
            &&& state.last_command == 0 && state.heartbeats == 0
            &&& state.pings.limits.max_tokens == 20 && state.pings.limits.refill_rate == 20
                && state.pings.limits.refill_interval_ms == 60_000
            &&& state.connections.limits.max_tokens == config.ip_limit as u32
                && state.connections.limits.refill_rate == config.ip_limit as u32
                && state.connections.limits.refill_interval_ms == 60_000
            &&& state.connections.granted == Map::<crate::addr::IpKey, u64>::empty()
            &&& state.pings.granted == Map::<crate::addr::IpKey, u64>::empty()
        }),
{
}

/// The address that announces the tunnel names version 3, the tunnel's own port, and how many
/// clients there are; it ends in `1` in maintenance mode and in `0` otherwise.
pub proof fn law_announcement_tells_the_state(state: V3Relay)
    ensures
        relay_url(state) == state.config.master_server_url@ + "?version=3&name="@ + encoded_component(
            state.config.name@,
        ) + "&port="@ + decimal(state.config.tunnel_port as nat) + "&clients="@ + decimal(
            state.clients.len(),
        ) + "&maxclients="@ + decimal(state.config.max_clients as nat) + "&masterpw="@
            + encoded_component(state.config.master_password@) + if state.maintenance {
            "&maintenance=1"@
        } else {
            "&maintenance=0"@
        },
{
    reveal_strlit("?version=3&name=");
    reveal_strlit("?version=");
    reveal_strlit("&name=");
    reveal_strlit("&maintenance=");
    reveal_strlit("&maintenance=1");
    reveal_strlit("&maintenance=0");
    reveal_strlit("1");
    reveal_strlit("0");
    crate::text::lemma_single_digit(3);
    assert(relay_url(state) =~= state.config.master_server_url@ + "?version=3&name="@
        + encoded_component(state.config.name@) + "&port="@ + decimal(
        state.config.tunnel_port as nat,
    ) + "&clients="@ + decimal(state.clients.len()) + "&maxclients="@ + decimal(
        state.config.max_clients as nat,
    ) + "&masterpw="@ + encoded_component(state.config.master_password@)
        + if state.maintenance {
        "&maintenance=1"@
    } else {
        "&maintenance=0"@
    });
}

} // verus!
