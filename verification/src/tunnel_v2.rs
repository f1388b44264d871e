//! Tunnel V2 of the server: packets between clients with 16-bit IDs, which are allocated over
//! HTTP.
//!
//! A packet starts with the sender ID and the receiver ID, 16 bits each, big-endian. A packet of
//! 50 bytes with both IDs 0 is a ping. Over HTTP, `/status` reports the slots, `/request?clients=N`
//! allocates 2 to 8 client IDs, `/maintenance/{password}` toggles maintenance mode and `/health`
//! answers. Maintenance mode rejects new connections and keeps the existing ones.

use vstd::prelude::*;

use crate::addr::{is_routable, validate_address, IpAddr, SocketAddr};
use crate::announce::{announce_url, build_url, encode_component, encoded_component, Announcement};
use crate::clock::relay_timestamp;
use crate::config::ServerConfig;
use crate::http::{plain, with_header, Reply, Response};
use crate::metrics::{Counters, LocalMetricsBatch, Metrics};
use crate::packet::{
    be_i16, copy_of, first_bytes, read_be_i16, Datagram, PING_LENGTH, PING_REPLY_LENGTH,
};
use crate::rate_limiter::{asked, request_limits, RateLimiter, Throttling};
use crate::relay_client::{
    lemma_records_dom, lemma_records_insert, lemma_records_remove, records, RelayClient,
    RelayRecord, Traffic,
};
use crate::table::{capacity_for, lemma_submap_len, Table};
use crate::text::{
    chars_of, decimal, has_prefix, parse_unsigned, parsed_unsigned, push_decimal,
    push_signed_decimal, same_chars, same_text, signed_decimal, split, split_chars, starts_with,
    tail_of,
};

verus! {

/// Version that is announced.
pub const VERSION: u64 = 2;

/// Seconds between two announcements.
pub const MASTER_ANNOUNCE_INTERVAL_SECS: u64 = 60;

/// Pings that one address may send in a minute.
pub const MAX_PINGS_PER_IP: u32 = 20;

/// Seconds after which a silent client has timed out.
pub const TIMEOUT_SECONDS: u64 = 30;

/// The most HTTP connections served at once.
pub const MAX_HTTP_CONNECTIONS: usize = 100;

/// The longest packet that is accepted.
pub const MAX_PACKET_SIZE: usize = 1472;

/// The shortest packet that is accepted.
pub const MIN_PACKET_SIZE: usize = 4;

/// How many random IDs are drawn for one request.
pub const MAX_ATTEMPTS: usize = 1000;

/// `rand::Rng::random` of `rand::rng()`, for a 16-bit number. Nothing is claimed of the number.
#[verifier::external_body]
fn random_id() -> i16 {
    rand::Rng::random(&mut rand::rng())
}

/// State of the tunnel.
pub struct V2Relay {
    pub config: ServerConfig,
    pub clients: Map<i16, RelayRecord>,
    /// Pings of each address.
    pub pings: Throttling,
    /// HTTP requests of each address.
    pub requests: Throttling,
    pub maintenance: bool,
    /// HTTP connections that were turned away since the last heartbeat.
    pub dropped: u32,
}

impl V2Relay {
    pub open spec fn wf(self) -> bool {
        &&& self.clients.dom().finite()
        &&& self.pings.limits.valid()
        &&& self.requests.limits.valid()
    }

    /// Whether a packet of `sender` from `addr` is accepted at `now`: the slot exists, and it is
    /// still unused, or used from that address, or was used from another address and has timed
    /// out. In maintenance mode nobody starts to use a slot: only the second holds.
    pub open spec fn accepts(self, sender: i16, addr: SocketAddr, now: u64) -> bool {
        &&& self.clients.contains_key(sender)
        &&& match self.clients[sender].remote_ep {
            None => !self.maintenance,
            Some(endpoint) => endpoint == addr || (!self.maintenance
                && self.clients[sender].timed_out(now)),
        }
    }

    /// The state after a packet of `length` bytes of `sender` from `addr` at `now`.
    pub open spec fn after_packet(
        self,
        sender: i16,
        addr: SocketAddr,
        length: usize,
        now: u64,
    ) -> V2Relay {
        if !self.accepts(sender, addr, now) {
            self
        } else if self.clients[sender].remote_ep == Some(addr) {
            V2Relay {
                clients: self.clients.insert(
                    sender,
                    self.clients[sender].heard(now).with_traffic(length, 0),
                ),
                ..self
            }
        } else {
            V2Relay {
                clients: self.clients.insert(
                    sender,
                    RelayRecord::fresh(Some(addr), TIMEOUT_SECONDS, now),
                ),
                ..self
            }
        }
    }

    /// Where a packet for `receiver` from `addr` goes: to the address of the receiver, but never
    /// back to where it came from.
    pub open spec fn forward_to(self, receiver: i16, addr: SocketAddr) -> Option<SocketAddr> {
        if self.clients.contains_key(receiver) && self.clients[receiver].remote_ep != Some(addr) {
            self.clients[receiver].remote_ep
        } else {
            None
        }
    }

    /// Where a packet of `sender` from `addr` for `receiver` goes.
    pub open spec fn destination(
        self,
        sender: i16,
        receiver: i16,
        addr: SocketAddr,
        length: usize,
        now: u64,
    ) -> Option<SocketAddr> {
        if self.accepts(sender, addr, now) {
            self.after_packet(sender, addr, length, now).forward_to(receiver, addr)
        } else {
            None
        }
    }

    /// The state after a packet of `length` bytes has been sent to `receiver`.
    pub open spec fn after_sending(self, receiver: i16, length: usize) -> V2Relay {
        if self.clients.contains_key(receiver) {
            V2Relay {
                clients: self.clients.insert(
                    receiver,
                    self.clients[receiver].with_traffic(0, length),
                ),
                ..self
            }
        } else {
            self
        }
    }

    /// The state after clients that have timed out at `now` have been removed. Pings are counted
    /// anew.
    pub open spec fn cleaned_up(self, now: u64) -> V2Relay {
        V2Relay {
            clients: self.clients.restrict(
                Set::new(
                    |id: i16| self.clients.contains_key(id) && !self.clients[id].timed_out(now),
                ),
            ),
            pings: Throttling::fresh(self.pings.limits),
            ..self
        }
    }

    /// The state after a request for `path` to toggle maintenance mode.
    pub open spec fn toggled(self, path: Seq<char>) -> V2Relay {
        if is_authorized(path, self.config.maintenance_password@) {
            V2Relay { maintenance: !self.maintenance, ..self }
        } else {
            self
        }
    }

    /// The state with a new slot for each of the IDs.
    pub open spec fn with_slots(self, ids: Seq<i16>, now: u64) -> V2Relay {
        V2Relay {
            clients: self.clients.union_prefer_right(
                Map::new(
                    |id: i16| ids.contains(id),
                    |id: i16| RelayRecord::fresh(None, TIMEOUT_SECONDS, now),
                ),
            ),
            ..self
        }
    }
}

/// The IDs that are picked of those drawn: not 0, not in use, and each once.
pub open spec fn picked(used: Set<i16>, draws: Seq<i16>) -> Seq<i16>
    decreases draws.len(),
{
    if draws.len() == 0 {
        Seq::empty()
    } else {
        let earlier = picked(used, draws.drop_last());
        let id = draws.last();
        if id != 0 && !used.contains(id) && !earlier.contains(id) {
            earlier.push(id)
        } else {
            earlier
        }
    }
}

/// Client IDs with commas between them.
pub open spec fn id_list(ids: Seq<i16>) -> Seq<char>
    decreases ids.len(),
{
    if ids.len() == 0 {
        Seq::empty()
    } else if ids.len() == 1 {
        signed_decimal(ids[0] as int)
    } else {
        id_list(ids.drop_last()) + ","@ + signed_decimal(ids.last() as int)
    }
}

/// The first `clients` parameter of a list, or else nothing.
pub open spec fn first_clients_param(params: Seq<Seq<char>>) -> Option<Seq<char>>
    decreases params.len(),
{
    if params.len() == 0 {
        None
    } else if starts_with(params[0], "clients="@) {
        Some(params[0])
    } else {
        first_clients_param(params.drop_first())
    }
}

/// The number of clients that a query asks for: what the first `clients` parameter says, and 0 if
/// that is no number or there is none.
pub open spec fn clients_param(query: Option<Seq<char>>) -> nat {
    match query {
        None => 0,
        Some(text) => match first_clients_param(split(text, '&')) {
            None => 0,
            Some(param) => match parsed_unsigned(
                param.skip("clients="@.len() as int),
                usize::MAX as nat,
            ) {
                Some(n) => n,
                None => 0,
            },
        },
    }
}

/// The text of an optional query.
pub open spec fn query_view(query: Option<&str>) -> Option<Seq<char>> {
    match query {
        Some(text) => Some(text@),
        None => None,
    }
}

/// The reply to a request for slots that is refused before any ID is drawn.
pub open spec fn refusal(state: V2Relay, asked_for: nat) -> Option<Reply> {
    if state.maintenance {
        Some(plain(503, "Server in maintenance mode"@))
    } else if asked_for < 2 || asked_for > 8 {
        Some(plain(400, "Invalid clients parameter (2-8)"@))
    } else if state.clients.len() + asked_for > state.config.max_clients {
        Some(plain(503, "Not enough slots available"@))
    } else {
        None
    }
}

/// What a request for slots leads to when certain IDs are picked: the state, the counters and the
/// reply. Either everybody gets a slot, or nobody does.
pub open spec fn slots_given(
    before: V2Relay,
    after: V2Relay,
    metrics: Metrics,
    metrics_after: Metrics,
    asked_for: nat,
    ids: Seq<i16>,
    now: u64,
    reply: Reply,
) -> bool {
    if ids.len() == asked_for {
        &&& after == before.with_slots(ids, now)
        &&& metrics_after == metrics.with_counters(
            Counters {
                v2_active_clients: (before.clients.len() + asked_for) as usize,
                ..metrics.counters
            },
        )
        &&& reply == with_header(
            200,
            "Content-Type"@,
            "application/json"@,
            "["@ + id_list(ids) + "]"@,
        )
    } else {
        &&& after == before
        &&& metrics_after == metrics
        &&& reply == plain(503, "Could not allocate requested clients"@)
    }
}

/// How many of the drawn IDs are looked at, `n` or more: until enough are picked, and never more
/// than so many.
pub open spec fn draws_used(used: Set<i16>, draws: Seq<i16>, asked_for: nat, n: nat) -> nat
    decreases draws.len() - n,
{
    if n >= draws.len() || n >= MAX_ATTEMPTS || picked(used, draws.take(n as int)).len()
        >= asked_for {
        n
    } else {
        draws_used(used, draws, asked_for, n + 1)
    }
}

/// What a request for slots leads to when the given IDs are drawn.
pub open spec fn request_answered_with(
    before: V2Relay,
    after: V2Relay,
    metrics: Metrics,
    metrics_after: Metrics,
    asked_for: nat,
    draws: Seq<i16>,
    now: u64,
    reply: Reply,
) -> bool {
    match refusal(before, asked_for) {
        Some(refused) => after == before && metrics_after == metrics && reply == refused,
        None => {
            let n = draws_used(before.clients.dom(), draws, asked_for, 0);
            let ids = picked(before.clients.dom(), draws.take(n as int));
            slots_given(before, after, metrics, metrics_after, asked_for, ids, now, reply)
        },
    }
}

/// What a request for slots leads to when exactly these IDs are drawn: enough of them, or as many
/// as are tried at most.
pub open spec fn slots_requested(
    before: V2Relay,
    after: V2Relay,
    metrics: Metrics,
    metrics_after: Metrics,
    asked_for: nat,
    draws: Seq<i16>,
    now: u64,
    reply: Reply,
) -> bool {
    let ids = picked(before.clients.dom(), draws);
    &&& draws.len() <= MAX_ATTEMPTS
    &&& ids.len() <= asked_for
    &&& ids.len() == asked_for || draws.len() == MAX_ATTEMPTS
    &&& slots_given(before, after, metrics, metrics_after, asked_for, ids, now, reply)
}

/// What a request for slots leads to.
pub open spec fn request_answered(
    before: V2Relay,
    after: V2Relay,
    metrics: Metrics,
    metrics_after: Metrics,
    asked_for: nat,
    now: u64,
    reply: Reply,
) -> bool {
    match refusal(before, asked_for) {
        Some(refused) => after == before && metrics_after == metrics && reply == refused,
        None => exists|draws: Seq<i16>| #[trigger]
            slots_requested(
                before,
                after,
                metrics,
                metrics_after,
                asked_for,
                draws,
                now,
                reply,
            ),
    }
}

/// The status page.
pub open spec fn status_text(max_clients: usize, active: nat, dropped: u32) -> Seq<char> {
    let free = if active <= max_clients {
        (max_clients - active) as nat
    } else {
        0
    };
    decimal(free) + " slots free.\n"@ + decimal(active) + " slots in use.\n"@ + decimal(
        dropped as nat,
    ) + " connections dropped.\n"@
}

/// Whether a path asks for maintenance mode with the right password.
pub open spec fn is_authorized(path: Seq<char>, password: Seq<char>) -> bool {
    let parts = split(path, '/');
    password.len() > 0 && parts.len() >= 3 && parts[2] == password
}

/// The reply to a request to toggle maintenance mode.
pub open spec fn maintenance_reply(state: V2Relay, path: Seq<char>) -> Reply {
    if state.config.maintenance_password@.len() == 0 {
        plain(401, "Maintenance password not configured"@)
    } else if !is_authorized(path, state.config.maintenance_password@) {
        plain(401, "Invalid maintenance password"@)
    } else if state.maintenance {
        plain(200, "Maintenance mode disabled"@)
    } else {
        plain(200, "Maintenance mode enabled"@)
    }
}

/// The sender ID and the receiver ID of a packet.
pub open spec fn packet_ids(packet: Seq<u8>) -> (i16, i16) {
    (be_i16(packet[0], packet[1]), be_i16(packet[2], packet[3]))
}

/// The client that a packet is for, unless it is a ping.
pub open spec fn addressee(packet: Seq<u8>) -> Option<i16> {
    if packet.len() < MIN_PACKET_SIZE || packet_ids(packet) == (0i16, 0i16) {
        None
    } else {
        Some(packet_ids(packet).1)
    }
}

/// A packet that is worth looking at: not from a client to itself, and from an address that
/// packets can come from.
pub open spec fn valid_packet(sender: i16, receiver: i16, addr: SocketAddr) -> bool {
    !(sender == receiver && sender != 0) && is_routable(addr)
}

/// Number of workers that receive packets, on so many processors: between 1 and 4.
pub fn receiver_count(cpus: usize) -> (n: usize)
    ensures
        n == if cpus < 1 {
            1
        } else if cpus > 4 {
            4
        } else {
            cpus
        },
{
    if cpus < 1 {
        1
    } else if cpus > 4 {
        4
    } else {
        cpus
    }
}

/// Whether a packet of so many bytes is handled.
pub fn is_handled(size: usize) -> (yes: bool)
    ensures
        yes == (MIN_PACKET_SIZE <= size <= MAX_PACKET_SIZE),
        yes == (4 <= size <= 1472),
{
    size >= MIN_PACKET_SIZE && size <= MAX_PACKET_SIZE
}

/// Tunnel V2.
pub struct TunnelV2 {
    config: ServerConfig,
    mappings: Table<i16, RelayClient>,
    ping_limiter: RateLimiter,
    request_limiter: RateLimiter,
    maintenance_mode: bool,
    dropped_connections: u32,
}

impl View for TunnelV2 {
    type V = V2Relay;

    closed spec fn view(&self) -> V2Relay {
        V2Relay {
            config: self.config,
            clients: records(self.mappings@),
            pings: self.ping_limiter@,
            requests: self.request_limiter@,
            maintenance: self.maintenance_mode,
            dropped: self.dropped_connections,
        }
    }
}

/// The state of a tunnel that has just been set up.
pub open spec fn initial(config: ServerConfig) -> V2Relay {
    V2Relay {
        config,
        clients: Map::empty(),
        pings: Throttling::fresh(request_limits(60, MAX_PINGS_PER_IP)),
        requests: Throttling::fresh(request_limits(60, config.ip_limit_v2 as u32)),
        maintenance: false,
        dropped: 0,
    }
}

impl TunnelV2 {
    /// A tunnel with the given configuration.
    pub fn new(config: ServerConfig) -> (tunnel: Self)
        requires
            request_limits(60, config.ip_limit_v2 as u32).valid(),
        ensures
            tunnel@.wf(),
            tunnel@ == initial(config),
    {
        let tunnel = TunnelV2 {
            ping_limiter: RateLimiter::new(60, MAX_PINGS_PER_IP),
            request_limiter: RateLimiter::new(60, config.ip_limit_v2 as u32),
            mappings: Table::with_tuned_shards(capacity_for(config.max_clients)),
            config,
            maintenance_mode: false,
            dropped_connections: 0,
        };
        assert(tunnel@.clients =~= Map::<i16, RelayRecord>::empty());
        tunnel
    }

    /// Whether a packet is worth looking at.
    pub fn validate_packet(&self, sender_id: i16, receiver_id: i16, addr: &SocketAddr) -> (valid:
        bool)
        ensures
            valid == valid_packet(sender_id, receiver_id, *addr),
    {
        if sender_id == receiver_id && sender_id != 0 {
            return false;
        }
        validate_address(addr)
    }

    /// Handles a packet from one client to another at Unix time `now` in seconds. Comes back with
    /// the datagram that is to be sent: the packet itself, to the address of the receiver.
    pub fn handle_data_forward(
        &mut self,
        sender_id: i16,
        receiver_id: i16,
        packet: &[u8],
        remote_addr: SocketAddr,
        now: u64,
    ) -> (reply: Option<Datagram>)
        requires
            old(self)@.wf(),
        ensures
            final(self)@.wf(),
            ({
                let before = old(self)@;
                let length = packet@.len() as usize;
                let to = before.destination(sender_id, receiver_id, remote_addr, length, now);
                &&& final(self)@ == before.after_packet(sender_id, remote_addr, length, now)
                &&& reply is Some == to is Some
                &&& reply matches Some(datagram) ==> datagram.payload@ == packet@ && Some(
                    datagram.to,
                ) == to
            }),
    {
        match self.record_of(sender_id) {
            None => {
                return None;
            },
            Some(sender) => {
                let known = match sender.remote_ep {
                    None => false,
                    Some(endpoint) => endpoint == remote_addr,
                };
                if known {
                    self.update(sender_id, packet.len(), true, now);
                } else if !self.maintenance_mode && (sender.remote_ep.is_none()
                    || sender.is_timed_out_at(now)) {
                    self.connect(sender_id, remote_addr, now);
                } else {
                    return None;
                }
            },
        }
        if let Some(receiver) = self.record_of(receiver_id) {
            if let Some(receiver_ep) = receiver.remote_ep {
                if receiver_ep != remote_addr {
                    return Some(Datagram { payload: copy_of(packet), to: receiver_ep });
                }
            }
        }
        None
    }

    /// What is known of a client.
    fn record_of(&self, id: i16) -> (record: Option<RelayRecord>)
        ensures
            record == if self@.clients.contains_key(id) {
                Some(self@.clients[id])
            } else {
                None
            },
    {
        self.mappings.read(
            &id,
            |client: &RelayClient| -> (record: RelayRecord)
                ensures
                    record == client@
                { client.record() },
        )
    }

    /// Makes the slot of a client anew, for packets from an address.
    fn connect(&mut self, id: i16, addr: SocketAddr, now: u64)
        requires
            old(self)@.wf(),
        ensures
            final(self)@.wf(),
            final(self)@ == (V2Relay {
                clients: old(self)@.clients.insert(
                    id,
                    RelayRecord::fresh(Some(addr), TIMEOUT_SECONDS, now),
                ),
                ..old(self)@
            }),
    {
        let client = RelayClient::new_at(Some(addr), TIMEOUT_SECONDS, now);
        proof {
            lemma_records_insert(self.mappings@, id, client);
        }
        self.mappings.insert(id, client);
    }

    /// Records a packet of so many bytes from or to a client.
    fn update(&mut self, id: i16, length: usize, received: bool, now: u64)
        requires
            old(self)@.wf(),
        ensures
            final(self)@.wf(),
            final(self)@ == if old(self)@.clients.contains_key(id) {
                V2Relay {
                    clients: old(self)@.clients.insert(
                        id,
                        if received {
                            old(self)@.clients[id].heard(now).with_traffic(length, 0)
                        } else {
                            old(self)@.clients[id].with_traffic(0, length)
                        },
                    ),
                    ..old(self)@
                }
            } else {
                old(self)@
            },
    {
        let ghost before = self.mappings@;
        match self.mappings.remove(&id) {
            Some(client) => {
                let updated = if received {
                    client.received_at(length, now)
                } else {
                    client.sent_at(length, now)
                };
                proof {
                    lemma_records_insert(before, id, updated);
                }
                self.mappings.insert(id, updated);
            },
            None => {
                assert(self.mappings@ =~= before);
            },
        }
    }

    /// Records that what a packet led to, of so many bytes, has been sent at Unix time `now` in
    /// seconds, or could not be.
    pub fn on_sent(
        &mut self,
        packet: &[u8],
        length: usize,
        sent: bool,
        now: u64,
        batch: &mut LocalMetricsBatch,
    )
        requires
            old(self)@.wf(),
        ensures
            final(self)@.wf(),
            sent ==> final(batch)@ == old(batch)@.with_v2_tx(length as u64),
            !sent ==> final(batch)@ == old(batch)@,
            final(self)@ == match addressee(packet@) {
                Some(receiver) => if sent {
                    old(self)@.after_sending(receiver, length)
                } else {
                    old(self)@
                },
                None => old(self)@,
            },
    {
        if !sent {
            return;
        }
        batch.record_v2_tx(length as u64);
        if packet.len() < MIN_PACKET_SIZE {
            return;
        }
        let sender_id: i16 = read_be_i16(packet[0], packet[1]);
        let receiver_id: i16 = read_be_i16(packet[2], packet[3]);
        if sender_id == 0 && receiver_id == 0 {
            return;
        }
        self.update(receiver_id, length, false, now);
    }

    /// Answers a ping that is within the limit: with its first bytes, to where it came from.
    pub fn handle_ping(
        &self,
        packet: &[u8],
        remote_addr: SocketAddr,
        metrics: &mut Metrics,
    ) -> (reply: Datagram)
        ensures
            reply.payload@ == packet@.take(if packet@.len() < PING_REPLY_LENGTH {
                packet@.len() as int
            } else {
                PING_REPLY_LENGTH as int
            }),
            reply.to == remote_addr,
            *final(metrics) == old(metrics).with_counters(
                Counters {
                    v2_ping_requests: old(metrics).counters.v2_ping_requests.wrapping_add(1),
                    ..old(metrics).counters
                },
            ),
    {
        metrics.counters.v2_ping_requests = metrics.counters.v2_ping_requests.wrapping_add(1);
        Datagram { payload: first_bytes(packet, PING_REPLY_LENGTH), to: remote_addr }
    }

    /// Handles a ping, given whether it is within the limit of its address: if it is, it is
    /// answered.
    pub fn on_ping(
        &self,
        packet: &[u8],
        remote_addr: SocketAddr,
        allowed: bool,
        metrics: &mut Metrics,
    ) -> (reply: Option<Datagram>)
        ensures
            reply is Some == allowed,
            reply matches Some(datagram) ==> datagram.payload@ == packet@.take(
                if packet@.len() < PING_REPLY_LENGTH {
                    packet@.len() as int
                } else {
                    PING_REPLY_LENGTH as int
                },
            ) && datagram.to == remote_addr,
            *final(metrics) == if allowed {
                old(metrics).with_counters(
                    Counters {
                        v2_ping_requests: old(metrics).counters.v2_ping_requests.wrapping_add(1),
                        ..old(metrics).counters
                    },
                )
            } else {
                *old(metrics)
            },
    {
        if allowed {
            Some(self.handle_ping(packet, remote_addr, metrics))
        } else {
            None
        }
    }

    /// Handles a received packet at Unix time `now` in seconds. Comes back with the datagram that
    /// is to be sent.
    pub fn on_udp_receive_at(
        &mut self,
        packet: &[u8],
        remote_addr: SocketAddr,
        now: u64,
        metrics: &mut Metrics,
        batch: &mut LocalMetricsBatch,
    ) -> (reply: Option<Datagram>)
        requires
            old(self)@.wf(),
        ensures
            final(self)@.wf(),
            packet_received(
                old(self)@,
                final(self)@,
                *old(metrics),
                *final(metrics),
                packet@,
                remote_addr,
                now,
                reply,
            ),
            final(batch)@ == if packet@.len() < 4 {
                old(batch)@
            } else {
                old(batch)@.with_v2_rx(packet@.len() as u64)
            },
    {
        if packet.len() < 4 {
            return None;
        }
        let sender_id: i16 = read_be_i16(packet[0], packet[1]);
        let receiver_id: i16 = read_be_i16(packet[2], packet[3]);
        batch.record_v2_rx(packet.len() as u64);
        if !self.validate_packet(sender_id, receiver_id, &remote_addr) {
            return None;
        }
        if sender_id == 0 && receiver_id == 0 {
            if packet.len() == PING_LENGTH {
                let allowed = self.ping_limiter.check_and_increment(&remote_addr.ip);
                return self.on_ping(packet, remote_addr, allowed, metrics);
            }
            return None;
        }
        self.handle_data_forward(sender_id, receiver_id, packet, remote_addr, now)
    }

    /// Handles a received packet.
    pub fn on_udp_receive(
        &mut self,
        packet: &[u8],
        remote_addr: SocketAddr,
        metrics: &mut Metrics,
        batch: &mut LocalMetricsBatch,
    ) -> (reply: Option<Datagram>)
        requires
            old(self)@.wf(),
        ensures
            final(self)@.wf(),
            exists|now: u64| #[trigger]
                packet_received(
                    old(self)@,
                    final(self)@,
                    *old(metrics),
                    *final(metrics),
                    packet@,
                    remote_addr,
                    now,
                    reply,
                ),
            final(batch)@ == if packet@.len() < 4 {
                old(batch)@
            } else {
                old(batch)@.with_v2_rx(packet@.len() as u64)
            },
    {
        let now: u64 = relay_timestamp();
        self.on_udp_receive_at(packet, remote_addr, now, metrics, batch)
    }
}

/// What a received packet leads to: the state, the counters, and the datagram that is to be sent.
pub open spec fn packet_received(
    before: V2Relay,
    after: V2Relay,
    metrics: Metrics,
    metrics_after: Metrics,
    packet: Seq<u8>,
    addr: SocketAddr,
    now: u64,
    reply: Option<Datagram>,
) -> bool {
    let (sender, receiver) = packet_ids(packet);
    if packet.len() < 4 || !valid_packet(sender, receiver, addr) {
        after == before && metrics_after == metrics && reply is None
    } else if sender == 0 && receiver == 0 {
        if packet.len() == PING_LENGTH {
            &&& asked(before.pings, after.pings, addr.ip.spec_key(), reply is Some)
            &&& after == (V2Relay { pings: after.pings, ..before })
            &&& metrics_after == if reply is Some {
                metrics.with_counters(
                    Counters {
                        v2_ping_requests: metrics.counters.v2_ping_requests.wrapping_add(1),
                        ..metrics.counters
                    },
                )
            } else {
                metrics
            }
            &&& reply matches Some(datagram) ==> datagram.payload@ == packet.take(
                PING_REPLY_LENGTH as int,
            ) && datagram.to == addr
        } else {
            after == before && metrics_after == metrics && reply is None
        }
    } else {
        let length = packet.len() as usize;
        let to = before.destination(sender, receiver, addr, length, now);
        &&& after == before.after_packet(sender, addr, length, now)
        &&& metrics_after == metrics
        &&& reply is Some == to is Some
        &&& reply matches Some(datagram) ==> datagram.payload@ == packet && Some(datagram.to) == to
    }
}

/// What the heartbeat does besides: the address that is requested to announce the tunnel, if it is
/// announced, and the number of HTTP connections that were turned away since the last one.
pub struct Heartbeat {
    pub announce: Option<String>,
    pub dropped: u32,
}

/// The address that is requested to announce the tunnel.
pub open spec fn relay_url(state: V2Relay) -> Seq<char> {
    announce_url(
        state.config.master_server_url@,
        Announcement {
            version: VERSION,
            name: encoded_component(state.config.name@),
            port: state.config.tunnel_v2_port,
            clients: state.clients.len(),
            max_clients: state.config.max_clients as nat,
            password: encoded_component(state.config.master_password@),
            maintenance: state.maintenance,
        },
    )
}

/// What an HTTP request leads to, given whether it is within the limit of its address: the state,
/// the counters and the reply.
pub open spec fn http_answered(
    before: V2Relay,
    after: V2Relay,
    metrics: Metrics,
    metrics_after: Metrics,
    is_get: bool,
    path: Seq<char>,
    query: Option<Seq<char>>,
    allowed: bool,
    now: u64,
    reply: Reply,
) -> bool {
    let counted = metrics.with_counters(
        Counters {
            v2_http_requests: metrics.counters.v2_http_requests.wrapping_add(1),
            ..metrics.counters
        },
    );
    if !allowed {
        &&& after == before
        &&& metrics_after == counted.with_counters(
            Counters {
                rate_limit_hits: counted.counters.rate_limit_hits.wrapping_add(1),
                ..counted.counters
            },
        )
        &&& reply == with_header(429, "Retry-After"@, "60"@, "Rate limit exceeded"@)
    } else if is_get && path == "/status"@ {
        &&& after == before
        &&& metrics_after == counted
        &&& reply == with_header(
            200,
            "Content-Type"@,
            "text/plain"@,
            status_text(before.config.max_clients, before.clients.len(), before.dropped),
        )
    } else if is_get && path == "/request"@ {
        request_answered(
            before,
            after,
            counted,
            metrics_after,
            clients_param(query),
            now,
            reply,
        )
    } else if is_get && starts_with(path, "/maintenance/"@) {
        &&& after == before.toggled(path)
        &&& metrics_after == counted
        &&& reply == maintenance_reply(before, path)
    } else if is_get && path == "/health"@ {
        after == before && metrics_after == counted && reply == plain(200, "OK"@)
    } else {
        after == before && metrics_after == counted && reply == plain(404, "Not Found"@)
    }
}

impl TunnelV2 {
    /// Reads the number of clients that a query asks for.
    pub fn parse_clients(query: Option<&str>) -> (clients: usize)
        ensures
            clients == clients_param(query_view(query)),
    {
        match query {
            None => 0,
            Some(text) => {
                let params = split_chars(&chars_of(text), '&');
                let key = chars_of("clients=");
                let ghost all = split(text@, '&');
                let mut i: usize = 0;
                assert(all.skip(0) =~= all);
                while i < params.len()
                    invariant
                        i <= params@.len(),
                        all == split(text@, '&'),
                        params@.len() == all.len(),
                        forall|j: int| 0 <= j < params@.len() ==> (#[trigger] params@[j])@ == all[j],
                        key@ == "clients="@,
                        query == Some(text),
                        first_clients_param(all) == first_clients_param(all.skip(i as int)),
                    decreases params@.len() - i,
                {
                    let param = &params[i];
                    proof {
                        assert(all.skip(i as int)[0] == param@);
                        assert(all.skip(i as int).drop_first() =~= all.skip(i + 1));
                    }
                    if has_prefix(param, &key) {
                        let value = tail_of(param, key.len());
                        return match parse_unsigned(&value, usize::MAX as u64) {
                            Some(n) => n as usize,
                            None => 0,
                        };
                    }
                    i = i + 1;
                }
                0
            },
        }
    }

    /// Makes a slot for a drawn ID at Unix time `now` in seconds, unless the ID is 0 or in use.
    pub fn offer_id(&mut self, id: i16, now: u64) -> (taken: bool)
        requires
            old(self)@.wf(),
        ensures
            final(self)@.wf(),
            taken == (id != 0 && !old(self)@.clients.contains_key(id)),
            final(self)@ == if taken {
                V2Relay {
                    clients: old(self)@.clients.insert(
                        id,
                        RelayRecord::fresh(None, TIMEOUT_SECONDS, now),
                    ),
                    ..old(self)@
                }
            } else {
                old(self)@
            },
    {
        proof {
            lemma_records_dom(self.mappings@);
        }
        if id != 0 && !self.mappings.contains_key(&id) {
            let client = RelayClient::new_at(None, TIMEOUT_SECONDS, now);
            proof {
                lemma_records_insert(self.mappings@, id, client);
            }
            self.mappings.insert(id, client);
            true
        } else {
            false
        }
    }

    /// Answers a request for slots at Unix time `now` in seconds, when the given IDs are drawn.
    pub fn handle_request_with(
        &mut self,
        query: Option<&str>,
        draws: &Vec<i16>,
        now: u64,
        metrics: &mut Metrics,
    ) -> (response: Response)
        requires
            old(self)@.wf(),
        ensures
            final(self)@.wf(),
            request_answered_with(
                old(self)@,
                final(self)@,
                *old(metrics),
                *final(metrics),
                clients_param(query_view(query)),
                draws@,
                now,
                response@,
            ),
    {
        let ghost before = self@;
        if self.maintenance_mode {
            return Response::text(503, "Server in maintenance mode");
        }
        let clients: usize = Self::parse_clients(query);
        if clients < 2 || clients > 8 {
            return Response::text(400, "Invalid clients parameter (2-8)");
        }
        if clients > self.config.max_clients.saturating_sub(self.client_count()) {
            return Response::text(503, "Not enough slots available");
        }
        let mut ids: Vec<i16> = Vec::new();
        let mut attempts: usize = 0;
        assert(self@.clients =~= before.with_slots(ids@, now).clients);
        assert(draws@.take(0) =~= Seq::<i16>::empty());
        while ids.len() < clients && attempts < draws.len() && attempts < MAX_ATTEMPTS
            invariant
                attempts <= MAX_ATTEMPTS,
                attempts <= draws@.len(),
                ids@.len() <= clients,
                ids@ == picked(before.clients.dom(), draws@.take(attempts as int)),
                draws_used(before.clients.dom(), draws@, clients as nat, 0) == draws_used(
                    before.clients.dom(),
                    draws@,
                    clients as nat,
                    attempts as nat,
                ),
                before.clients.dom().finite(),
                self@.wf(),
                self@ == before.with_slots(ids@, now),
                self@.clients.len() == before.clients.len() + ids@.len(),
                forall|i: int| 0 <= i < ids@.len() ==> !before.clients.contains_key(
                    #[trigger] ids@[i],
                ),
            decreases MAX_ATTEMPTS - attempts,
        {
            let id: i16 = draws[attempts];
            let ghost earlier = ids@;
            let ghost slots = self@;
            if self.offer_id(id, now) {
                ids.push(id);
            }
            attempts = attempts + 1;
            proof {
                let shown = draws@.take(attempts as int);
                assert(shown.drop_last() =~= draws@.take(attempts - 1));
                assert(shown.last() == id);
                assert(slots.clients.contains_key(id) <==> before.clients.contains_key(id)
                    || earlier.contains(id));
                if id != 0 && !slots.clients.contains_key(id) {
                    assert(ids@[ids@.len() - 1] == id);
                    assert forall|other: i16| ids@.contains(other) == (earlier.contains(other)
                        || other == id) by {
                        if earlier.contains(other) {
                            let j = choose|j: int| 0 <= j < earlier.len() && earlier[j] == other;
                            assert(ids@[j] == other);
                        }
                    }
                    assert(self@.clients =~= before.with_slots(ids@, now).clients);
                }
            }
        }
        if ids.len() < clients {
            self.remove_slots(&ids, Ghost(before), now);
            return Response::text(503, "Could not allocate requested clients");
        }
        metrics.counters.v2_active_clients = self.client_count();
        let mut body = String::new();
        body.append("[");
        let ghost start = body@;
        push_signed_decimal(&mut body, ids[0]);
        let mut i: usize = 1;
        proof {
            assert(ids@.take(1)[0] == ids@[0]);
            assert(body@ =~= start + id_list(ids@.take(1)));
        }
        while i < ids.len()
            invariant
                1 <= i <= ids@.len(),
                body@ == start + id_list(ids@.take(i as int)),
            decreases ids@.len() - i,
        {
            body.append(",");
            push_signed_decimal(&mut body, ids[i]);
            i = i + 1;
            proof {
                let shown = ids@.take(i as int);
                assert(shown.drop_last() =~= ids@.take(i - 1));
                assert(shown.last() == ids@[i - 1]);
                assert(body@ =~= start + id_list(shown));
            }
        }
        body.append("]");
        proof {
            assert(ids@.take(i as int) =~= ids@);
            assert(start =~= "["@);
        }
        Response { status: 200, header: Some(("Content-Type", "application/json")), body }
    }

    /// Draws IDs at random until enough of them are new, or too many have been drawn.
    fn draw_ids(&self, clients: usize) -> (draws: Vec<i16>)
        ensures
            draws@.len() <= MAX_ATTEMPTS,
            picked(self@.clients.dom(), draws@).len() <= clients,
            picked(self@.clients.dom(), draws@).len() == clients || draws@.len() == MAX_ATTEMPTS,
            forall|n: int|
                0 <= n < draws@.len() ==> picked(
                    self@.clients.dom(),
                    #[trigger] draws@.take(n),
                ).len() < clients,
    {
        let mut draws: Vec<i16> = Vec::new();
        let mut ids: Vec<i16> = Vec::new();
        let ghost taken = self@.clients.dom();
        while ids.len() < clients && draws.len() < MAX_ATTEMPTS
            invariant
                taken == self@.clients.dom(),
                draws@.len() <= MAX_ATTEMPTS,
                ids@ == picked(taken, draws@),
                ids@.len() <= clients,
                forall|n: int|
                    0 <= n < draws@.len() ==> picked(taken, #[trigger] draws@.take(n)).len()
                        < clients,
            decreases MAX_ATTEMPTS - draws.len(),
        {
            let id: i16 = random_id();
            let ghost earlier = draws@;
            if id != 0 && self.record_of(id).is_none() && !holds(&ids, id) {
                ids.push(id);
            }
            draws.push(id);
            proof {
                assert(draws@.drop_last() =~= earlier);
                assert(draws@.take(draws@.len() - 1) =~= earlier);
                assert forall|n: int| 0 <= n < draws@.len() implies picked(
                    taken,
                    #[trigger] draws@.take(n),
                ).len() < clients by {
                    if n < earlier.len() {
                        assert(draws@.take(n) =~= earlier.take(n));
                    }
                }
            }
        }
        draws
    }

    /// Answers a request for slots at Unix time `now` in seconds.
    pub fn handle_request_at(
        &mut self,
        query: Option<&str>,
        now: u64,
        metrics: &mut Metrics,
    ) -> (response: Response)
        requires
            old(self)@.wf(),
        ensures
            final(self)@.wf(),
            request_answered(
                old(self)@,
                final(self)@,
                *old(metrics),
                *final(metrics),
                clients_param(query_view(query)),
                now,
                response@,
            ),
    {
        let ghost before = self@;
        let clients: usize = Self::parse_clients(query);
        let draws: Vec<i16> = if self.is_refused(clients) {
            Vec::new()
        } else {
            self.draw_ids(clients)
        };
        let response = self.handle_request_with(query, &draws, now, metrics);
        proof {
            if refusal(before, clients as nat) is None {
                lemma_all_draws_used(before.clients.dom(), draws@, clients as nat, 0);
                assert(draws@.take(draws@.len() as int) =~= draws@);
                assert(slots_requested(
                    before,
                    self@,
                    *old(metrics),
                    *metrics,
                    clients as nat,
                    draws@,
                    now,
                    response@,
                ));
            }
        }
        response
    }

    /// Whether a request for so many slots is refused before any ID is drawn.
    fn is_refused(&self, clients: usize) -> (refused: bool)
        ensures
            refused == (refusal(self@, clients as nat) is Some),
    {
        self.maintenance_mode || clients < 2 || clients > 8 || clients
            > self.config.max_clients.saturating_sub(self.client_count())
    }

    /// Takes slots that have just been made out again.
    fn remove_slots(&mut self, ids: &Vec<i16>, Ghost(before): Ghost<V2Relay>, now: u64)
        requires
            old(self)@.wf(),
            old(self)@ == before.with_slots(ids@, now),
            forall|i: int| 0 <= i < ids@.len() ==> !before.clients.contains_key(
                #[trigger] ids@[i],
            ),
        ensures
            final(self)@.wf(),
            final(self)@ == before,
    {
        let mut i: usize = 0;
        while i < ids.len()
            invariant
                i <= ids@.len(),
                self@.wf(),
                self@ == (V2Relay { clients: self@.clients, ..before }),
                forall|j: int| 0 <= j < ids@.len() ==> !before.clients.contains_key(
                    #[trigger] ids@[j],
                ),
                forall|id: i16| #[trigger]
                    self@.clients.contains_key(id) ==> before.clients.contains_key(id) || exists|j: int|
                        i <= j < ids@.len() && ids@[j] == id,
                forall|id: i16| #[trigger]
                    before.clients.contains_key(id) ==> self@.clients.contains_key(id)
                        && self@.clients[id] == before.clients[id],
            decreases ids@.len() - i,
        {
            let id: i16 = ids[i];
            proof {
                lemma_records_remove(self.mappings@, id);
            }
            self.mappings.remove(&id);
            i = i + 1;
        }
        assert(self@.clients =~= before.clients);
    }

    /// Answers a request for the status page.
    pub fn handle_status(&self) -> (response: Response)
        ensures
            response@ == with_header(
                200,
                "Content-Type"@,
                "text/plain"@,
                status_text(self@.config.max_clients, self@.clients.len(), self@.dropped),
            ),
    {
        let active: usize = self.client_count();
        let free: usize = self.config.max_clients.saturating_sub(active);
        let mut status = String::new();
        push_decimal(&mut status, free as u64);
        status.append(" slots free.\n");
        push_decimal(&mut status, active as u64);
        status.append(" slots in use.\n");
        push_decimal(&mut status, self.dropped_connections as u64);
        status.append(" connections dropped.\n");
        assert(status@ =~= status_text(
            self@.config.max_clients,
            self@.clients.len(),
            self@.dropped,
        ));
        Response { status: 200, header: Some(("Content-Type", "text/plain")), body: status }
    }

    /// Answers a request to toggle maintenance mode.
    pub fn handle_maintenance(&mut self, path: &str) -> (response: Response)
        ensures
            final(self)@ == old(self)@.toggled(path@),
            response@ == maintenance_reply(old(self)@, path@),
    {
        if self.config.maintenance_password.as_str().is_empty() {
            return Response::text(401, "Maintenance password not configured");
        }
        let parts = split_chars(&chars_of(path), '/');
        if parts.len() >= 3 {
            let password = chars_of(self.config.maintenance_password.as_str());
            if same_chars(&parts[2], &password) {
                self.maintenance_mode = !self.maintenance_mode;
                return if self.maintenance_mode {
                    Response::text(200, "Maintenance mode enabled")
                } else {
                    Response::text(200, "Maintenance mode disabled")
                };
            }
        }
        Response::text(401, "Invalid maintenance password")
    }

    /// Answers an HTTP request at Unix time `now` in seconds, given whether it is within the limit
    /// of its address.
    pub fn handle_http_request_with(
        &mut self,
        is_get: bool,
        path: &str,
        query: Option<&str>,
        allowed: bool,
        now: u64,
        metrics: &mut Metrics,
    ) -> (response: Response)
        requires
            old(self)@.wf(),
        ensures
            final(self)@.wf(),
            http_answered(
                old(self)@,
                final(self)@,
                *old(metrics),
                *final(metrics),
                is_get,
                path@,
                query_view(query),
                allowed,
                now,
                response@,
            ),
    {
        metrics.counters.v2_http_requests = metrics.counters.v2_http_requests.wrapping_add(1);
        if !allowed {
            metrics.counters.rate_limit_hits = metrics.counters.rate_limit_hits.wrapping_add(1);
            return Response {
                status: 429,
                header: Some(("Retry-After", "60")),
                body: "Rate limit exceeded".to_owned(),
            };
        }
        if is_get {
            if same_text(path, "/status") {
                return self.handle_status();
            }
            if same_text(path, "/request") {
                return self.handle_request_at(query, now, metrics);
            }
            if has_prefix(&chars_of(path), &chars_of("/maintenance/")) {
                return self.handle_maintenance(path);
            }
            if same_text(path, "/health") {
                return Response::text(200, "OK");
            }
        }
        Response::text(404, "Not Found")
    }

    /// Answers an HTTP request of `ip`, which must be within its limit.
    pub fn handle_http_request(
        &mut self,
        is_get: bool,
        path: &str,
        query: Option<&str>,
        ip: IpAddr,
        metrics: &mut Metrics,
    ) -> (response: Response)
        requires
            old(self)@.wf(),
        ensures
            final(self)@.wf(),
            exists|checked: V2Relay, allowed: bool, now: u64|
                asked(old(self)@.requests, checked.requests, ip.spec_key(), allowed) && checked
                    == (V2Relay { requests: checked.requests, ..old(self)@ })
                    && #[trigger] http_answered(
                    checked,
                    final(self)@,
                    *old(metrics),
                    *final(metrics),
                    is_get,
                    path@,
                    query_view(query),
                    allowed,
                    now,
                    response@,
                ),
    {
        let allowed = self.request_limiter.check_and_increment(&ip);
        let now: u64 = relay_timestamp();
        let ghost checked = self@;
        assert(checked == (V2Relay { requests: checked.requests, ..old(self)@ }));
        let response = self.handle_http_request_with(is_get, path, query, allowed, now, metrics);
        assert(http_answered(
            checked,
            self@,
            *old(metrics),
            *metrics,
            is_get,
            path@,
            query_view(query),
            allowed,
            now,
            response@,
        ));
        response
    }

    /// Decides whether an HTTP connection is served: if one of the places for connections was
    /// free. Those that are turned away are counted.
    pub fn on_connection(&mut self, permit: bool, metrics: &mut Metrics) -> (served: bool)
        ensures
            served == permit,
            permit ==> final(self)@ == old(self)@ && *final(metrics) == *old(metrics),
            !permit ==> final(self)@ == (V2Relay {
                dropped: old(self)@.dropped.wrapping_add(1),
                ..old(self)@
            }) && *final(metrics) == old(metrics).with_counters(
                Counters {
                    dropped_connections: old(metrics).counters.dropped_connections.wrapping_add(1),
                    ..old(metrics).counters
                },
            ),
    {
        if !permit {
            self.dropped_connections = self.dropped_connections.wrapping_add(1);
            metrics.counters.dropped_connections =
                metrics.counters.dropped_connections.wrapping_add(1);
        }
        permit
    }

    /// Removes the clients that have timed out at Unix time `now` in seconds.
    pub fn cleanup_expired_mappings_at(&mut self, now: u64, metrics: &mut Metrics)
        requires
            old(self)@.wf(),
        ensures
            final(self)@.wf(),
            final(self)@ == old(self)@.cleaned_up(now),
            *final(metrics) == old(metrics).with_counters(
                Counters {
                    v2_active_clients: final(self)@.clients.len() as usize,
                    ..old(metrics).counters
                },
            ),
    {
        let ghost before = self@;
        self.mappings.retain(
            |_id: &i16, client: &RelayClient| -> (keep: bool)
                ensures
                    keep != client@.timed_out(now)
                { !client.is_timed_out_at(now) },
        );
        metrics.counters.v2_active_clients = self.client_count();
        self.ping_limiter.reset();
        proof {
            let after = before.cleaned_up(now).clients;
            assert forall|id: i16| #[trigger] self@.clients.contains_key(id) <==> after.contains_key(
                id,
            ) by {
                if before.clients.contains_key(id) {
                    let client = before.clients[id];
                    assert(self@.clients.contains_key(id) != client.timed_out(now));
                }
            }
            assert(self@.clients =~= after);
            lemma_submap_len(after, before.clients);
        }
    }

    /// The address that is requested to announce the tunnel.
    pub fn master_announce_url(&self) -> (url: String)
        ensures
            url@ == relay_url(self@),
    {
        let name = encode_component(self.config.name.as_str());
        let password = encode_component(self.config.master_password.as_str());
        build_url(
            self.config.master_server_url.as_str(),
            VERSION,
            name.as_str(),
            self.config.tunnel_v2_port,
            self.client_count(),
            self.config.max_clients,
            password.as_str(),
            self.maintenance_mode,
        )
    }

    /// Does the work of a heartbeat at Unix time `now` in seconds: removes the clients that have
    /// timed out, counts requests anew, announces the tunnel unless that is turned off, and
    /// reports the HTTP connections that were turned away.
    pub fn heartbeat_at(&mut self, now: u64, metrics: &mut Metrics) -> (heartbeat: Heartbeat)
        requires
            old(self)@.wf(),
        ensures
            final(self)@.wf(),
            final(self)@ == (V2Relay {
                requests: Throttling::fresh(old(self)@.requests.limits),
                dropped: 0,
                ..old(self)@.cleaned_up(now)
            }),
            *final(metrics) == old(metrics).with_counters(
                Counters {
                    v2_active_clients: final(self)@.clients.len() as usize,
                    ..old(metrics).counters
                },
            ),
            match heartbeat.announce {
                Some(url) => !old(self)@.config.no_master_announce && url@ == relay_url(
                    final(self)@,
                ),
                None => old(self)@.config.no_master_announce,
            },
            heartbeat.dropped == old(self)@.dropped,
    {
        self.cleanup_expired_mappings_at(now, metrics);
        self.request_limiter.reset();
        let announce: Option<String> = if self.config.no_master_announce {
            None
        } else {
            Some(self.master_announce_url())
        };
        let dropped: u32 = self.dropped_connections;
        self.dropped_connections = 0;
        Heartbeat { announce, dropped }
    }

    /// Number of slots in use.
    pub fn client_count(&self) -> (n: usize)
        ensures
            n == self@.clients.len(),
            self@.clients.dom().finite(),
    {
        proof {
            lemma_records_dom(self.mappings@);
        }
        self.mappings.len()
    }

    /// Whether the tunnel is in maintenance mode.
    pub fn maintenance_mode(&self) -> (on: bool)
        ensures
            on == self@.maintenance,
    {
        self.maintenance_mode
    }
}

/// Whether an ID is among others.
fn holds(ids: &Vec<i16>, id: i16) -> (found: bool)
    ensures
        found == ids@.contains(id),
{
    let mut i: usize = 0;
    while i < ids.len()
        invariant
            i <= ids@.len(),
            forall|j: int| 0 <= j < i ==> ids@[j] != id,
        decreases ids@.len() - i,
    {
        if ids[i] == id {
            return true;
        }
        i = i + 1;
    }
    false
}

/// When no shorter list picks enough IDs, all drawn ones are looked at.
proof fn lemma_all_draws_used(used: Set<i16>, draws: Seq<i16>, asked_for: nat, n: nat)
    requires
        n <= draws.len() <= MAX_ATTEMPTS,
        forall|m: int|
            0 <= m < draws.len() ==> picked(used, #[trigger] draws.take(m)).len() < asked_for,
    ensures
        draws_used(used, draws, asked_for, n) == draws.len(),
    decreases draws.len() - n,
{
    if n < draws.len() {
        assert(picked(used, draws.take(n as int)).len() < asked_for);
        lemma_all_draws_used(used, draws, asked_for, n + 1);
    }
}

/// Every ID that is picked is new, and none is picked twice.
pub proof fn law_picked_ids_are_new(used: Set<i16>, draws: Seq<i16>)
    ensures
        picked(used, draws).no_duplicates(),
        forall|i: int|
            0 <= i < picked(used, draws).len() ==> !used.contains(#[trigger] picked(used, draws)[i])
                && picked(used, draws)[i] != 0,
    decreases draws.len(),
{
    if draws.len() > 0 {
        law_picked_ids_are_new(used, draws.drop_last());
        let earlier = picked(used, draws.drop_last());
        let id = draws.last();
        if id != 0 && !used.contains(id) && !earlier.contains(id) {
            assert forall|i: int| 0 <= i < earlier.len() implies earlier[i] != id by {
                assert(earlier.contains(earlier[i]));
            }
        }
    }
}

/// A request for slots gives a slot to everybody or to nobody, never more than the server admits,
/// and leaves the slots of everybody else as they were.
pub proof fn law_slots_for_everybody_or_nobody(
    before: V2Relay,
    after: V2Relay,
    metrics: Metrics,
    metrics_after: Metrics,
    asked_for: nat,
    now: u64,
    reply: Reply,
)
    requires
        before.wf(),
        request_answered(before, after, metrics, metrics_after, asked_for, now, reply),
        before.clients.len() <= before.config.max_clients,
    ensures
        after.clients.len() == before.clients.len() || after.clients.len() == before.clients.len()
            + asked_for,
        after.clients.len() <= before.config.max_clients,
        reply.status == 200 ==> after.clients.len() == before.clients.len() + asked_for,
        reply.status != 200 ==> after == before,
        before.clients.submap_of(after.clients),
{
    if refusal(before, asked_for) is None {
        let draws = choose|draws: Seq<i16>| #[trigger]
            slots_requested(
                before,
                after,
                metrics,
                metrics_after,
                asked_for,
                draws,
                now,
                reply,
            );
        let ids = picked(before.clients.dom(), draws);
        law_picked_ids_are_new(before.clients.dom(), draws);
        if ids.len() == asked_for {
            let added = ids.to_set();
            ids.unique_seq_to_set();
            vstd::seq_lib::seq_to_set_is_finite(ids);
            assert(after.clients.dom() =~= before.clients.dom().union(added));
            assert(before.clients.dom().disjoint(added));
            vstd::set_lib::lemma_set_disjoint_lens(before.clients.dom(), added);
            assert(before.clients.submap_of(after.clients));
        }
    }
}

/// A packet is never sent back to where it came from, and it goes nowhere unless its sender is
/// accepted.
pub proof fn law_never_back_to_the_sender(
    state: V2Relay,
    sender: i16,
    receiver: i16,
    addr: SocketAddr,
    length: usize,
    now: u64,
)
    ensures
        state.destination(sender, receiver, addr, length, now) != Some(addr),
        state.destination(sender, receiver, addr, length, now) is Some ==> state.accepts(
            sender,
            addr,
            now,
        ),
{
}

/// No packet makes a slot: slots come from requests alone. And a packet affects no slot but that
/// of its sender.
pub proof fn law_packets_make_no_slots(
    state: V2Relay,
    sender: i16,
    addr: SocketAddr,
    length: usize,
    now: u64,
    other: i16,
)
    ensures
        state.after_packet(sender, addr, length, now).clients.dom() == state.clients.dom(),
        other != sender ==> state.after_packet(sender, addr, length, now).clients[other]
            == state.clients[other],
{
    assert(state.after_packet(sender, addr, length, now).clients.dom() =~= state.clients.dom());
}

/// Nobody can take over the slot of a client that has not timed out, nor any slot in use in
/// maintenance mode: its address stays, and packets from any other address are not accepted.
pub proof fn law_active_client_keeps_its_address(
    state: V2Relay,
    sender: i16,
    addr: SocketAddr,
    length: usize,
    now: u64,
)
    requires
        state.clients.contains_key(sender),
        state.clients[sender].remote_ep is Some,
        state.maintenance || !state.clients[sender].timed_out(now),
    ensures
        state.after_packet(sender, addr, length, now).clients[sender].remote_ep
            == state.clients[sender].remote_ep,
        state.accepts(sender, addr, now) <==> state.clients[sender].remote_ep == Some(addr),
{
}

/// A packet from one connected client to another arrives, in maintenance mode too; there, exactly
/// the connected clients are accepted.
pub proof fn law_maintenance_keeps_connected_clients(
    state: V2Relay,
    sender: i16,
    receiver: i16,
    from: SocketAddr,
    to: SocketAddr,
    length: usize,
    now: u64,
    addr: SocketAddr,
)
    requires
        sender != receiver,
        from != to,
        state.clients.contains_key(sender) && state.clients[sender].remote_ep == Some(from),
        state.clients.contains_key(receiver) && state.clients[receiver].remote_ep == Some(to),
    ensures
        state.destination(sender, receiver, from, length, now) == Some(to),
        state.maintenance ==> (state.accepts(sender, addr, now) <==> addr == from),
{
}

/// In maintenance mode no client starts to use a slot.
pub proof fn law_maintenance_refuses_new_clients(
    state: V2Relay,
    sender: i16,
    addr: SocketAddr,
    length: usize,
    now: u64,
)
    requires
        state.maintenance,
        !(state.clients.contains_key(sender) && state.clients[sender].remote_ep == Some(addr)),
    ensures
        !state.accepts(sender, addr, now),
        state.after_packet(sender, addr, length, now) == state,
{
}

/// Toggling maintenance mode twice leaves the tunnel as it was, and without the password nothing
/// changes at all.
pub proof fn law_toggling_twice_restores(state: V2Relay, path: Seq<char>)
    ensures
        state.toggled(path).toggled(path) == state,
        is_authorized(path, state.config.maintenance_password@) ==> state.toggled(path).maintenance
            != state.maintenance,
        !is_authorized(path, state.config.maintenance_password@) ==> state.toggled(path) == state,
{
}

/// Two clients that were given slots reach each other from then on: once each of them has sent a
/// packet, a packet of one arrives at the address of the other, and back.
pub proof fn law_clients_with_slots_reach_each_other(
    before: V2Relay,
    ids: Seq<i16>,
    one: i16,
    two: i16,
    a: SocketAddr,
    b: SocketAddr,
    length: usize,
    now: u64,
    later: u64,
)
    requires
        !before.maintenance,
        ids.contains(one) && ids.contains(two),
        one != two,
        a != b,
    ensures
        ({
            let given = before.with_slots(ids, now);
            let connected = given.after_packet(one, a, length, later).after_packet(
                two,
                b,
                length,
                later,
            );
            &&& given.accepts(one, a, later) && given.accepts(two, b, later)
            &&& connected.destination(one, two, a, length, later) == Some(b)
            &&& connected.destination(two, one, b, length, later) == Some(a)
        }),
{
}

/// The IDs of a packet are its first four bytes, each ID with its high byte first, as a number
/// that may be negative.
pub proof fn law_header_is_read(packet: Seq<u8>, sender: i16, receiver: i16)
    requires
        packet.len() >= 4,
        packet[0] * 256 + packet[1] == if sender < 0 {
            sender + 65_536
        } else {
            sender as int
        },
        packet[2] * 256 + packet[3] == if receiver < 0 {
            receiver + 65_536
        } else {
            receiver as int
        },
    ensures
        packet_ids(packet) == (sender, receiver),
        addressee(packet) == if sender == 0 && receiver == 0 {
            None
        } else {
            Some(receiver)
        },
{
    crate::packet::law_be_i16_is_read_back(sender);
    crate::packet::law_be_i16_is_read_back(receiver);
}

/// A packet of a client that uses its slot renews it: for as long as its timeout the slot has not
/// timed out, a cleanup keeps it, and nobody else can use it.
pub proof fn law_packet_renews_its_client(
    state: V2Relay,
    sender: i16,
    addr: SocketAddr,
    length: usize,
    now: u64,
    later: u64,
)
    requires
        state.clients.contains_key(sender),
        state.clients[sender].remote_ep == Some(addr),
    ensures
        ({
            let after = state.after_packet(sender, addr, length, now);
            let client = after.clients[sender];
            &&& after == (V2Relay { clients: state.clients.insert(sender, client), ..state })
            &&& client.last_receive == now
            &&& client.remote_ep == Some(addr)
            &&& client.timeout == state.clients[sender].timeout
            &&& client.traffic.packets == state.clients[sender].traffic.packets.wrapping_add(1)
            &&& client.traffic.received == state.clients[sender].traffic.received.wrapping_add(
                length as u64,
            )
            &&& client.traffic.sent == state.clients[sender].traffic.sent
            &&& 0 < client.timeout && later < now + client.timeout ==> {
                &&& !client.timed_out(later)
                &&& after.cleaned_up(later).clients.contains_key(sender)
                &&& forall|other: SocketAddr|
                    other != addr ==> !#[trigger] after.accepts(sender, other, later)
            }
            &&& later >= now + client.timeout ==> !after.cleaned_up(
                later,
            ).clients.contains_key(sender)
        }),
{
}

/// A slot that nobody uses yet, or whose client has been silent for its timeout, is taken by
/// whoever sends from it next, outside of maintenance mode: it then belongs to that address, and
/// times out after 30 seconds. Without a slot, and with one that is in use elsewhere, a packet
/// changes nothing and goes nowhere.
pub proof fn law_slots_are_taken_by_whoever_comes(
    state: V2Relay,
    sender: i16,
    receiver: i16,
    addr: SocketAddr,
    length: usize,
    now: u64,
)
    requires
        !(state.clients.contains_key(sender) && state.clients[sender].remote_ep == Some(addr)),
    ensures
        ({
            let free = state.clients.contains_key(sender) && !state.maintenance && (
            state.clients[sender].remote_ep is None || state.clients[sender].last_receive
                + state.clients[sender].timeout <= now || state.clients[sender].timeout == 0);
            let after = state.after_packet(sender, addr, length, now);
            &&& free ==> after == (V2Relay {
                clients: state.clients.insert(
                    sender,
                RelayRecord {
                    remote_ep: Some(addr),
                    last_receive: now,
                    timeout: 30,
                    traffic: Traffic { packets: 0, received: 0, sent: 0 },
                },
                ),
                ..state
            })
            &&& !free ==> after == state && state.destination(
                sender,
                receiver,
                addr,
                length,
                now,
            ) is None
            &&& state.accepts(sender, addr, now) == free
        }),
{
}

/// A packet that is let in goes to the address of its receiver, and nowhere else: not if the
/// receiver has no slot or does not use it, and not back to where it came from.
pub proof fn law_packets_reach_their_receiver(
    state: V2Relay,
    sender: i16,
    receiver: i16,
    addr: SocketAddr,
    to: SocketAddr,
    length: usize,
    now: u64,
)
    requires
        sender != receiver,
        state.clients.contains_key(sender),
        state.clients[sender].remote_ep == Some(addr) || (state.clients[sender].remote_ep is None
            && !state.maintenance),
    ensures
        state.clients.contains_key(receiver) && state.clients[receiver].remote_ep == Some(to) && to
            != addr ==> state.destination(sender, receiver, addr, length, now) == Some(to),
        !state.clients.contains_key(receiver) || state.clients[receiver].remote_ep is None
            || state.clients[receiver].remote_ep == Some(addr) ==> state.destination(
            sender,
            receiver,
            addr,
            length,
            now,
        ) is None,
{
}

/// A packet from one client to another is decided by the IDs in its header and the address that it
/// comes from; what is sent of it is the packet itself.
pub proof fn law_data_packets_are_forwarded(
    before: V2Relay,
    after: V2Relay,
    metrics: Metrics,
    metrics_after: Metrics,
    packet: Seq<u8>,
    addr: SocketAddr,
    now: u64,
    reply: Option<Datagram>,
    sender: i16,
    receiver: i16,
)
    requires
        packet.len() >= 4,
        packet_ids(packet) == (sender, receiver),
        sender != receiver,
        is_routable(addr),
        packet_received(before, after, metrics, metrics_after, packet, addr, now, reply),
    ensures
        after == before.after_packet(sender, addr, packet.len() as usize, now),
        metrics_after == metrics,
        match before.destination(sender, receiver, addr, packet.len() as usize, now) {
            Some(to) => reply matches Some(datagram) && datagram.payload@ == packet && datagram.to
                == to,
            None => reply is None,
        },
{
}

/// A ping is a packet of 50 bytes that starts with four zeros. If its address is granted a token,
/// its first twelve bytes go back to where it came from; it changes nothing but what the address
/// has asked for, and the count of pings.
pub proof fn law_pings_are_echoed(
    before: V2Relay,
    after: V2Relay,
    metrics: Metrics,
    metrics_after: Metrics,
    packet: Seq<u8>,
    addr: SocketAddr,
    now: u64,
    reply: Option<Datagram>,
)
    requires
        packet.len() == 50,
        forall|i: int| 0 <= i < 4 ==> #[trigger] packet[i] == 0,
        is_routable(addr),
        packet_received(before, after, metrics, metrics_after, packet, addr, now, reply),
    ensures
        asked(before.pings, after.pings, addr.ip.spec_key(), reply is Some),
        after == (V2Relay { pings: after.pings, ..before }),
        reply matches Some(datagram) ==> {
            &&& datagram.to == addr
            &&& datagram.payload@.len() == 12
            &&& forall|i: int| 0 <= i < 12 ==> #[trigger] datagram.payload@[i] == packet[i]
            &&& metrics_after.counters == (Counters {
                v2_ping_requests: metrics.counters.v2_ping_requests.wrapping_add(1),
                ..metrics.counters
            })
        },
        reply is None ==> metrics_after == metrics,
{
    assert(packet[0] == 0 && packet[1] == 0 && packet[2] == 0 && packet[3] == 0);
}

/// What is too short, comes from a client to itself or from an address that packets cannot come
/// from, or has both IDs 0 without being a ping, leads to nothing at all.
pub proof fn law_other_packets_are_ignored(
    before: V2Relay,
    after: V2Relay,
    metrics: Metrics,
    metrics_after: Metrics,
    packet: Seq<u8>,
    addr: SocketAddr,
    now: u64,
    reply: Option<Datagram>,
    sender: i16,
    receiver: i16,
)
    requires
        packet.len() < 4 || (packet_ids(packet) == (sender, receiver) && (sender == receiver
            && sender != 0 || !is_routable(addr) || sender == 0 && receiver == 0 && packet.len()
            != 50)),
        packet_received(before, after, metrics, metrics_after, packet, addr, now, reply),
    ensures
        after == before,
        metrics_after == metrics,
        reply is None,
{
}

/// Cleaning up removes exactly the slots that have been silent for their timeout, and forgets the
/// pings of all addresses. Nothing else changes.
pub proof fn law_cleanup_keeps_whoever_was_heard(state: V2Relay, now: u64, id: i16)
    ensures
        ({
            let after = state.cleaned_up(now);
            &&& after.clients.contains_key(id) <==> state.clients.contains_key(id) && 0
                < state.clients[id].timeout && now < state.clients[id].last_receive
                + state.clients[id].timeout
            &&& after.clients.contains_key(id) ==> after.clients[id] == state.clients[id]
            &&& forall|key: crate::addr::IpKey| !#[trigger] after.pings.granted.contains_key(key)
            &&& after.pings.limits == state.pings.limits
            &&& after == (V2Relay { clients: after.clients, pings: after.pings, ..state })
        }),
{
}

/// A packet that was sent is counted for its receiver, and nothing else changes.
pub proof fn law_sent_packets_are_counted(state: V2Relay, receiver: i16, length: usize)
    ensures
        state.after_sending(receiver, length) == if state.clients.contains_key(receiver) {
            V2Relay {
                clients: state.clients.insert(
                    receiver,
                    RelayRecord {
                        traffic: Traffic {
                            packets: state.clients[receiver].traffic.packets.wrapping_add(1),
                            received: state.clients[receiver].traffic.received,
                            sent: state.clients[receiver].traffic.sent.wrapping_add(length as u64),
                        },
                        ..state.clients[receiver]
                    },
                ),
                ..state
            }
        } else {
            state
        },
{
}

/// A new tunnel has no slots, is not in maintenance mode, and lets each address send 20 pings and
/// make as many requests as are configured in a minute.
pub proof fn law_new_tunnel_is_empty(config: ServerConfig)
    ensures
        ({
            let state = initial(config);
            &&& state.config == config
            &&& state.clients == Map::<i16, RelayRecord>::empty()
            &&& !state.maintenance
            &&& state.dropped == 0
            &&& state.pings.limits.max_tokens == 20 && state.pings.limits.refill_rate == 20
                && state.pings.limits.refill_interval_ms == 60_000
            &&& state.requests.limits.max_tokens == config.ip_limit_v2 as u32
                && state.requests.limits.refill_rate == config.ip_limit_v2 as u32
                && state.requests.limits.refill_interval_ms == 60_000
            &&& state.pings.granted == Map::<crate::addr::IpKey, u64>::empty()
            &&& state.requests.granted == Map::<crate::addr::IpKey, u64>::empty()
        }),
{
}

/// The IDs among those drawn that can be given out: not 0 and not in use.
pub open spec fn new_ids(used: Set<i16>, draws: Seq<i16>) -> Set<i16> {
    Set::new(|id: i16| draws.contains(id) && id != 0 && !used.contains(id))
}

/// Every new ID that is drawn is picked, once, and nothing else is.
pub proof fn law_every_new_id_is_picked(used: Set<i16>, draws: Seq<i16>, id: i16)
    ensures
        picked(used, draws).contains(id) <==> draws.contains(id) && id != 0 && !used.contains(id),
        picked(used, draws).no_duplicates(),
        picked(used, draws).len() <= draws.len(),
    decreases draws.len(),
{
    law_picked_ids_are_new(used, draws);
    if draws.len() > 0 {
        let shorter = draws.drop_last();
        let earlier = picked(used, shorter);
        law_every_new_id_is_picked(used, shorter, id);
        law_every_new_id_is_picked(used, shorter, draws.last());
        assert(draws =~= shorter.push(draws.last()));
        assert(draws.contains(id) <==> shorter.contains(id) || id == draws.last()) by {
            if shorter.contains(id) {
                let i = choose|i: int| 0 <= i < shorter.len() && shorter[i] == id;
                assert(draws[i] == id);
            }
            if draws.contains(id) {
                let i = choose|i: int| 0 <= i < draws.len() && draws[i] == id;
                if i < shorter.len() {
                    assert(shorter[i] == id);
                }
            }
            assert(draws[draws.len() - 1] == draws.last());
        }
        let all = picked(used, draws);
        if all.len() > earlier.len() {
            assert(all.contains(id) <==> earlier.contains(id) || id == draws.last()) by {
                if earlier.contains(id) {
                    let i = choose|i: int| 0 <= i < earlier.len() && earlier[i] == id;
                    assert(all[i] == id);
                }
                assert(all[all.len() - 1] == draws.last());
            }
        }
    }
}

proof fn lemma_picked_count(used: Set<i16>, draws: Seq<i16>)
    ensures
        new_ids(used, draws).finite(),
        picked(used, draws).len() == new_ids(used, draws).len(),
        picked(used, draws).to_set() == new_ids(used, draws),
{
    let ids = picked(used, draws);
    law_picked_ids_are_new(used, draws);
    ids.unique_seq_to_set();
    vstd::seq_lib::seq_to_set_is_finite(ids);
    assert forall|id: i16| #[trigger] ids.to_set().contains(id) <==> new_ids(
        used,
        draws,
    ).contains(id) by {
        law_every_new_id_is_picked(used, draws, id);
    }
    assert(ids.to_set() =~= new_ids(used, draws));
}

proof fn lemma_picked_grows(used: Set<i16>, draws: Seq<i16>, n: int)
    requires
        0 <= n < draws.len(),
    ensures
        picked(used, draws.take(n)).len() <= picked(used, draws.take(n + 1)).len() <= picked(
            used,
            draws.take(n),
        ).len() + 1,
        picked(used, draws.take(n)) == picked(used, draws.take(n + 1)).take(
            picked(used, draws.take(n)).len() as int,
        ),
{
    assert(draws.take(n + 1).drop_last() =~= draws.take(n));
    let earlier = picked(used, draws.take(n));
    assert(earlier =~= picked(used, draws.take(n + 1)).take(earlier.len() as int));
}

proof fn lemma_picked_is_monotonic(used: Set<i16>, draws: Seq<i16>, n: int, m: int)
    requires
        0 <= n <= m <= draws.len(),
    ensures
        picked(used, draws.take(n)).len() <= picked(used, draws.take(m)).len(),
        picked(used, draws.take(n)) == picked(used, draws.take(m)).take(
            picked(used, draws.take(n)).len() as int,
        ),
    decreases m - n,
{
    let first = picked(used, draws.take(n));
    if n < m {
        lemma_picked_is_monotonic(used, draws, n, m - 1);
        lemma_picked_grows(used, draws, m - 1);
        assert(first =~= picked(used, draws.take(m)).take(first.len() as int));
    } else {
        assert(first =~= first.take(first.len() as int));
    }
}

/// Drawing stops as soon as there are enough, and so no more than enough are picked.
proof fn lemma_enough_are_picked(used: Set<i16>, draws: Seq<i16>, asked_for: nat, n: nat)
    requires
        n <= draws.len(),
        n <= 1000,
        picked(used, draws.take(n as int)).len() <= asked_for,
    ensures
        ({
            let m = draws_used(used, draws, asked_for, n);
            let end = if draws.len() < 1000 {
                draws.len() as int
            } else {
                1000
            };
            let ids = picked(used, draws.take(m as int));
            let all = picked(used, draws.take(end));
            &&& n <= m <= end
            &&& ids.len() == if all.len() < asked_for {
                all.len()
            } else {
                asked_for
            }
            &&& ids == all.take(ids.len() as int)
        }),
    decreases draws.len() - n,
{
    let end = if draws.len() < 1000 {
        draws.len() as int
    } else {
        1000
    };
    let all = picked(used, draws.take(end));
    lemma_picked_is_monotonic(used, draws, n as int, end);
    if n >= draws.len() || n >= MAX_ATTEMPTS {
        assert(all =~= all.take(all.len() as int));
    } else if picked(used, draws.take(n as int)).len() < asked_for {
        lemma_picked_grows(used, draws, n as int);
        lemma_enough_are_picked(used, draws, asked_for, n + 1);
    }
}

/// As long as there is room, a request for 2 to 8 slots is never refused for lack of it: it is met
/// whenever enough new IDs are among the first thousand that are drawn. There are then exactly so
/// many slots more, all of them unused, heard of now, and with a timeout of 30 seconds; the reply
/// lists their IDs. With too few new IDs nobody gets a slot.
pub proof fn law_requests_are_met_while_there_is_room(
    before: V2Relay,
    after: V2Relay,
    metrics: Metrics,
    metrics_after: Metrics,
    asked_for: nat,
    draws: Seq<i16>,
    now: u64,
    reply: Reply,
)
    requires
        before.wf(),
        !before.maintenance,
        2 <= asked_for <= 8,
        before.clients.len() + asked_for <= before.config.max_clients,
        draws.len() <= 1000,
        request_answered_with(
            before,
            after,
            metrics,
            metrics_after,
            asked_for,
            draws,
            now,
            reply,
        ),
    ensures
        new_ids(before.clients.dom(), draws).len() >= asked_for ==> {
            &&& reply.status == 200
            &&& reply.header == Some(("Content-Type"@, "application/json"@))
            &&& after.clients.len() == before.clients.len() + asked_for
            &&& before.clients.submap_of(after.clients)
            &&& after == (V2Relay { clients: after.clients, ..before })
            &&& metrics_after.counters == (Counters {
                v2_active_clients: (before.clients.len() + asked_for) as usize,
                ..metrics.counters
            })
            &&& forall|id: i16| #[trigger]
                after.clients.contains_key(id) && !before.clients.contains_key(id) ==> {
                    &&& id != 0 && draws.contains(id)
                    &&& after.clients[id] == (RelayRecord {
                        remote_ep: None,
                        last_receive: now,
                        timeout: 30,
                        traffic: Traffic { packets: 0, received: 0, sent: 0 },
                    })
                }
            &&& exists|ids: Seq<i16>|
                {
                    &&& ids.len() == asked_for
                    &&& ids.no_duplicates()
                    &&& reply.body == "["@ + #[trigger] id_list(ids) + "]"@
                    &&& forall|id: i16| #[trigger]
                        ids.contains(id) <==> after.clients.contains_key(id)
                            && !before.clients.contains_key(id)
                }
        },
        new_ids(before.clients.dom(), draws).len() < asked_for ==> after == before && metrics_after
            == metrics && reply.status == 503 && reply.body
            == "Could not allocate requested clients"@,
{
    let used = before.clients.dom();
    let n = draws_used(used, draws, asked_for, 0);
    let ids = picked(used, draws.take(n as int));
    assert(draws.take(0) =~= Seq::<i16>::empty());
    lemma_enough_are_picked(used, draws, asked_for, 0);
    assert(draws.take(draws.len() as int) =~= draws);
    lemma_picked_count(used, draws);
    if ids.len() == asked_for {
        law_picked_ids_are_new(used, draws.take(n as int));
        let added = ids.to_set();
        ids.unique_seq_to_set();
        vstd::seq_lib::seq_to_set_is_finite(ids);
        assert forall|id: i16| ids.contains(id) implies draws.contains(id) && id != 0
            && !used.contains(id) by {
            law_every_new_id_is_picked(used, draws.take(n as int), id);
            let i = choose|i: int| 0 <= i < n && draws.take(n as int)[i] == id;
            assert(draws[i] == id);
        }
        assert(after.clients.dom() =~= used.union(added));
        assert(used.disjoint(added));
        vstd::set_lib::lemma_set_disjoint_lens(used, added);
        assert(before.clients.submap_of(after.clients));
        assert forall|id: i16| #[trigger] ids.contains(id) <==> after.clients.contains_key(id)
            && !before.clients.contains_key(id) by {}
        assert(reply.body == "["@ + id_list(ids) + "]"@);
    }
}

/// A request is refused outright only for one of three reasons, and then nothing changes: the
/// server is in maintenance mode, other than 2 to 8 slots are asked for, or the slots in use and
/// those asked for are more than the server has.
pub proof fn law_requests_are_refused_for_a_reason(
    before: V2Relay,
    after: V2Relay,
    metrics: Metrics,
    metrics_after: Metrics,
    asked_for: nat,
    draws: Seq<i16>,
    now: u64,
    reply: Reply,
)
    requires
        request_answered_with(
            before,
            after,
            metrics,
            metrics_after,
            asked_for,
            draws,
            now,
            reply,
        ),
    ensures
        before.maintenance ==> reply.status == 503 && reply.body == "Server in maintenance mode"@,
        !before.maintenance && !(2 <= asked_for <= 8) ==> reply.status == 400 && reply.body
            == "Invalid clients parameter (2-8)"@,
        !before.maintenance && 2 <= asked_for <= 8 && before.clients.len() + asked_for
            > before.config.max_clients ==> reply.status == 503 && reply.body
            == "Not enough slots available"@,
        before.maintenance || !(2 <= asked_for <= 8) || before.clients.len() + asked_for
            > before.config.max_clients ==> after == before && metrics_after == metrics
            && reply.header is None,
        reply.body == "Not enough slots available"@ ==> before.clients.len() + asked_for
            > before.config.max_clients,
        reply.body == "Server in maintenance mode"@ ==> before.maintenance,
{
    reveal_strlit("Not enough slots available");
    reveal_strlit("Could not allocate requested clients");
    reveal_strlit("Server in maintenance mode");
    reveal_strlit("Invalid clients parameter (2-8)");
    reveal_strlit("[");
    assert("Not enough slots available"@[0] == 'N');
    assert("Could not allocate requested clients"@[0] == 'C');
    assert("Server in maintenance mode"@[0] == 'S');
    assert("Invalid clients parameter (2-8)"@[0] == 'I');
    assert("["@[0] == '[');
    if refusal(before, asked_for) is None {
        let n = draws_used(before.clients.dom(), draws, asked_for, 0);
        let ids = picked(before.clients.dom(), draws.take(n as int));
        if ids.len() == asked_for {
            assert(reply.body[0] == '[');
        }
    }
}

/// When the IDs are drawn at random the same holds: with room for everybody and outside of
/// maintenance mode, a request for 2 to 8 slots is met, or nobody gets a slot because a thousand
/// draws had too few new IDs.
pub proof fn law_random_requests_are_met(
    before: V2Relay,
    after: V2Relay,
    metrics: Metrics,
    metrics_after: Metrics,
    asked_for: nat,
    now: u64,
    reply: Reply,
)
    requires
        before.wf(),
        request_answered(before, after, metrics, metrics_after, asked_for, now, reply),
    ensures
        !before.maintenance && 2 <= asked_for <= 8 && before.clients.len() + asked_for
            <= before.config.max_clients ==> (reply.status == 200 && after.clients.len()
            == before.clients.len() + asked_for) || (reply.status == 503 && reply.body
            == "Could not allocate requested clients"@ && after == before && exists|draws: Seq<i16>|
            draws.len() == 1000 && #[trigger] picked(before.clients.dom(), draws).len() < asked_for),
        before.maintenance ==> reply.status == 503 && reply.body == "Server in maintenance mode"@,
        !before.maintenance && !(2 <= asked_for <= 8) ==> reply.status == 400 && reply.body
            == "Invalid clients parameter (2-8)"@,
        !before.maintenance && 2 <= asked_for <= 8 && before.clients.len() + asked_for
            > before.config.max_clients ==> reply.status == 503 && reply.body
            == "Not enough slots available"@,
        before.maintenance || !(2 <= asked_for <= 8) || before.clients.len() + asked_for
            > before.config.max_clients ==> after == before && metrics_after == metrics,
        forall|id: i16|
            before.clients.contains_key(id) ==> #[trigger] after.clients.contains_key(id)
                && after.clients[id] == before.clients[id],
        forall|id: i16| #[trigger]
            after.clients.contains_key(id) && !before.clients.contains_key(id) ==> id != 0
                && after.clients[id] == (RelayRecord {
                remote_ep: None,
                last_receive: now,
                timeout: 30,
                traffic: Traffic { packets: 0, received: 0, sent: 0 },
            }),
{
    if refusal(before, asked_for) is None {
        let draws = choose|draws: Seq<i16>| #[trigger]
            slots_requested(
                before,
                after,
                metrics,
                metrics_after,
                asked_for,
                draws,
                now,
                reply,
            );
        let ids = picked(before.clients.dom(), draws);
        law_picked_ids_are_new(before.clients.dom(), draws);
        assert forall|id: i16| ids.contains(id) implies id != 0 && !before.clients.contains_key(
            id,
        ) by {
            let i = choose|i: int| 0 <= i < ids.len() && ids[i] == id;
        }
        if ids.len() == asked_for {
            let added = ids.to_set();
            ids.unique_seq_to_set();
            vstd::seq_lib::seq_to_set_is_finite(ids);
            assert(after.clients.dom() =~= before.clients.dom().union(added));
            assert(before.clients.dom().disjoint(added));
            vstd::set_lib::lemma_set_disjoint_lens(before.clients.dom(), added);
        }
    }
}

/// The IDs of a reply are the fields between its commas, in the order in which they were given.
pub proof fn law_id_list_has_a_field_for_each(ids: Seq<i16>)
    requires
        ids.len() > 0,
    ensures
        split(id_list(ids), ',').len() == ids.len(),
        forall|i: int|
            0 <= i < ids.len() ==> #[trigger] split(id_list(ids), ',')[i] == signed_decimal(
                ids[i] as int,
            ),
    decreases ids.len(),
{
    reveal_strlit(",");
    let last = signed_decimal(ids.last() as int);
    crate::text::law_signed_decimal(ids.last() as int, 0);
    crate::text::law_text_without_separator_is_one_field(last, ',');
    if ids.len() > 1 {
        let shorter = ids.drop_last();
        law_id_list_has_a_field_for_each(shorter);
        assert(","@ =~= seq![',']);
        crate::text::law_fields_are_concatenated(id_list(shorter), ',', last);
        assert forall|i: int| 0 <= i < ids.len() implies #[trigger] split(id_list(ids), ',')[i]
            == signed_decimal(ids[i] as int) by {
            if i < shorter.len() {
                assert(split(id_list(shorter), ',')[i] == signed_decimal(shorter[i] as int));
            }
        }
    } else {
        assert(ids[0] == ids.last());
    }
}

/// The status page adds up: the slots that are free and those in use are as many as the server
/// has, unless more are in use than it has.
pub proof fn law_status_adds_up(max_clients: usize, active: nat, dropped: u32)
    ensures
        active <= max_clients ==> status_text(max_clients, active, dropped) == decimal(
            (max_clients - active) as nat,
        ) + " slots free.\n"@ + decimal(active) + " slots in use.\n"@ + decimal(dropped as nat)
            + " connections dropped.\n"@,
        active > max_clients ==> status_text(max_clients, active, dropped) == "0 slots free.\n"@
            + decimal(active) + " slots in use.\n"@ + decimal(dropped as nat)
            + " connections dropped.\n"@,
{
    reveal_strlit("0 slots free.\n");
    reveal_strlit(" slots free.\n");
    crate::text::lemma_single_digit(0);
    assert(decimal(0) + " slots free.\n"@ =~= "0 slots free.\n"@);
}

/// The password stands behind the second slash of the path, up to the next one: exactly with the
/// right one, and if there is one, a request is authorized.
pub proof fn law_password_authorizes(given: Seq<char>, rest: Seq<char>, password: Seq<char>)
    requires
        !given.contains('/'),
    ensures
        is_authorized("/maintenance/"@ + given, password) <==> password.len() > 0 && given
            == password,
        is_authorized("/maintenance/"@ + given + seq!['/'] + rest, password) <==> password.len() > 0
            && given == password,
        !is_authorized("/maintenance"@, password),
{
    reveal_strlit("/maintenance/");
    reveal_strlit("/maintenance");
    reveal_strlit("maintenance");
    let none = Seq::<char>::empty();
    let word = "maintenance"@;
    crate::text::law_text_without_separator_is_one_field(none, '/');
    crate::text::law_text_without_separator_is_one_field(word, '/');
    crate::text::law_text_without_separator_is_one_field(given, '/');
    crate::text::law_fields_are_concatenated(none, '/', word);
    let head = none + seq!['/'] + word;
    assert(head =~= "/maintenance"@);
    assert(split("/maintenance"@, '/').len() == 2);
    crate::text::law_fields_are_concatenated(head, '/', given);
    assert(head + seq!['/'] + given =~= "/maintenance/"@ + given);
    assert(split("/maintenance/"@ + given, '/')[2] == given);
    crate::text::law_fields_are_concatenated("/maintenance/"@ + given, '/', rest);
    assert(split("/maintenance/"@ + given + seq!['/'] + rest, '/')[2] == given);
}

/// Exactly with the password, a request toggles maintenance mode, and the reply tells which way.
/// Without it the reply is 401 and nothing changes.
pub proof fn law_maintenance_reply_tells_the_mode(state: V2Relay, path: Seq<char>)
    ensures
        is_authorized(path, state.config.maintenance_password@) ==> {
            &&& state.toggled(path) == (V2Relay { maintenance: !state.maintenance, ..state })
            &&& maintenance_reply(state, path).status == 200
            &&& maintenance_reply(state, path).body == if state.maintenance {
                "Maintenance mode disabled"@
            } else {
                "Maintenance mode enabled"@
            }
        },
        !is_authorized(path, state.config.maintenance_password@) ==> {
            &&& state.toggled(path) == state
            &&& maintenance_reply(state, path).status == 401
            &&& maintenance_reply(state, path).body
                == if state.config.maintenance_password@.len() == 0 {
                "Maintenance password not configured"@
            } else {
                "Invalid maintenance password"@
            }
        },
        maintenance_reply(state, path).header is None,
{
}

/// A query asks for what its first `clients` parameter says: parameters before that one are passed
/// over, those behind it do not count, and without one nothing is asked for.
pub proof fn law_first_clients_parameter_counts(param: Seq<char>, rest: Seq<char>, n: nat)
    requires
        !param.contains('&'),
        n <= usize::MAX,
    ensures
        clients_param(None) == 0,
        clients_param(Some("clients="@ + decimal(n))) == n,
        clients_param(Some("clients="@ + decimal(n) + seq!['&'] + rest)) == n,
        !starts_with(param, "clients="@) ==> clients_param(Some(param)) == 0 && clients_param(
            Some(param + seq!['&'] + rest),
        ) == clients_param(Some(rest)),
{
    reveal_strlit("clients=");
    let whole = "clients="@ + decimal(n);
    crate::text::law_decimal_notation(n);
    crate::text::law_decimal_is_read_back(n, usize::MAX as nat);
    assert(!whole.contains('&')) by {
        assert forall|i: int| 0 <= i < whole.len() implies whole[i] != '&' by {
            if i >= 8 {
                assert('0' <= decimal(n)[i - 8] <= '9');
            }
        }
    }
    assert(whole.take(8) =~= "clients="@);
    assert(whole.skip(8) =~= decimal(n));
    crate::text::law_text_without_separator_is_one_field(whole, '&');
    crate::text::law_fields_are_concatenated(whole, '&', rest);
    crate::text::law_text_without_separator_is_one_field(param, '&');
    crate::text::law_fields_are_concatenated(param, '&', rest);
    assert(split(whole + seq!['&'] + rest, '&')[0] == whole);
    if !starts_with(param, "clients="@) {
        assert(seq![param].drop_first() =~= Seq::<Seq<char>>::empty());
        assert(first_clients_param(seq![param].drop_first()) is None);
        assert((seq![param] + split(rest, '&')).drop_first() =~= split(rest, '&'));
    }
}

/// Every HTTP request is counted. One that is over the limit of its address, or that is not for
/// one of the four paths, changes nothing else; `/health` and `/status` never do.
pub proof fn law_http_requests_are_answered(
    before: V2Relay,
    after: V2Relay,
    metrics: Metrics,
    metrics_after: Metrics,
    is_get: bool,
    path: Seq<char>,
    query: Option<Seq<char>>,
    allowed: bool,
    now: u64,
    reply: Reply,
)
    requires
        http_answered(
            before,
            after,
            metrics,
            metrics_after,
            is_get,
            path,
            query,
            allowed,
            now,
            reply,
        ),
    ensures
        metrics_after.counters.v2_http_requests == metrics.counters.v2_http_requests.wrapping_add(1),
        !allowed ==> after == before && reply == (Reply {
            status: 429,
            header: Some(("Retry-After"@, "60"@)),
            body: "Rate limit exceeded"@,
        }) && metrics_after.counters == (Counters {
            v2_http_requests: metrics.counters.v2_http_requests.wrapping_add(1),
            rate_limit_hits: metrics.counters.rate_limit_hits.wrapping_add(1),
            ..metrics.counters
        }),
        allowed && is_get && path == "/status"@ ==> after == before && reply == (Reply {
            status: 200,
            header: Some(("Content-Type"@, "text/plain"@)),
            body: status_text(before.config.max_clients, before.clients.len(), before.dropped),
        }),
        allowed && is_get && path == "/health"@ ==> after == before && reply == (Reply {
            status: 200,
            header: None,
            body: "OK"@,
        }),
        allowed && is_get && path == "/request"@ ==> request_answered(
            before,
            after,
            metrics.with_counters(
                Counters {
                    v2_http_requests: metrics.counters.v2_http_requests.wrapping_add(1),
                    ..metrics.counters
                },
            ),
            metrics_after,
            clients_param(query),
            now,
            reply,
        ),
        allowed && is_get && path.len() >= 13 && path.take(13) == "/maintenance/"@ ==> after
            == before.toggled(path) && reply == maintenance_reply(before, path),
        allowed && (!is_get || path != "/status"@ && path != "/health"@ && path != "/request"@ && !(
        path.len() >= 13 && path.take(13) == "/maintenance/"@)) ==> after == before && reply
            == (Reply { status: 404, header: None, body: "Not Found"@ }),
        allowed && !(is_get && path == "/request"@) ==> metrics_after.counters == (Counters {
            v2_http_requests: metrics.counters.v2_http_requests.wrapping_add(1),
            ..metrics.counters
        }),
{
    reveal_strlit("/maintenance/");
    reveal_strlit("/status");
    reveal_strlit("/request");
    reveal_strlit("/health");
    assert("/maintenance/"@[1] == 'm' && "/status"@[1] == 's' && "/request"@[1] == 'r'
        && "/health"@[1] == 'h');
    if path.len() >= 13 && path.take(13) == "/maintenance/"@ {
        assert(path[1] == path.take(13)[1]);
    }
    if allowed && is_get && path == "/request"@ {
        assert(metrics_after.counters.v2_http_requests
            == metrics.counters.v2_http_requests.wrapping_add(1));
    }
}

/// The address that announces the tunnel names version 2, the tunnel's own port, and how many
/// slots are in use; it ends in `1` in maintenance mode and in `0` otherwise.
pub proof fn law_announcement_tells_the_state(state: V2Relay)
    ensures
        relay_url(state) == state.config.master_server_url@ + "?version=2&name="@ + encoded_component(
            state.config.name@,
        ) + "&port="@ + decimal(state.config.tunnel_v2_port as nat) + "&clients="@ + decimal(
            state.clients.len(),
        ) + "&maxclients="@ + decimal(state.config.max_clients as nat) + "&masterpw="@
            + encoded_component(state.config.master_password@) + if state.maintenance {
            "&maintenance=1"@
        } else {
            "&maintenance=0"@
        },
{
    reveal_strlit("?version=2&name=");
    reveal_strlit("?version=");
    reveal_strlit("&name=");
    reveal_strlit("&maintenance=");
    reveal_strlit("&maintenance=1");
    reveal_strlit("&maintenance=0");
    reveal_strlit("1");
    reveal_strlit("0");
    crate::text::lemma_single_digit(2);
    assert(relay_url(state) =~= state.config.master_server_url@ + "?version=2&name="@
        + encoded_component(state.config.name@) + "&port="@ + decimal(
        state.config.tunnel_v2_port as nat,
    ) + "&clients="@ + decimal(state.clients.len()) + "&maxclients="@ + decimal(
        state.config.max_clients as nat,
    ) + "&masterpw="@ + encoded_component(state.config.master_password@)
        + if state.maintenance {
        "&maintenance=1"@
    } else {
        "&maintenance=0"@
    });
}

} // verus!
