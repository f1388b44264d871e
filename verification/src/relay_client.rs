//! Clients of the server's tunnels, and the statistics that `udp_relay_core` keeps of them.

use vstd::prelude::*;

use crate::addr::SocketAddr;

verus! {

/// The most bytes of one client from which `udp_relay_core` can estimate a bandwidth.
pub const MAX_ESTIMATED: u64 = 1_844_674_407_370_955_161;

/// Packets after which the counts of lost packets are halved.
pub const MAX_COUNTED_PACKETS: u32 = 10_000;

/// What has been recorded in statistics.
pub uninterp spec fn recorded_traffic(statistics: RelayStatistics) -> Traffic;

/// Packets that were counted as lost, and all that were counted.
pub uninterp spec fn counted_losses(quality: RelayQuality) -> Losses;

/// The statistics of a client: a `udp_relay_core::TunnelClient`, kept opaque.
#[verifier::external_body]
pub struct RelayStatistics {
    client: udp_relay_core::TunnelClient,
}

/// The quality of a connection: a `udp_relay_core::QualityAnalyzer`, kept opaque.
#[verifier::external_body]
pub struct RelayQuality {
    analyzer: udp_relay_core::QualityAnalyzer,
}

/// Packets and bytes of a client. They start over when they have reached their largest number.
#[derive(Clone, Copy)]
pub struct Traffic {
    pub packets: u64,
    pub received: u64,
    pub sent: u64,
}

impl Traffic {
    /// Nothing has been recorded.
    pub open spec fn zero() -> Traffic {
        Traffic { packets: 0, received: 0, sent: 0 }
    }

    /// A bandwidth can be estimated with so many bytes more.
    pub open spec fn has_room(self, bytes: int) -> bool {
        self.received + self.sent + bytes <= MAX_ESTIMATED
    }

    /// The traffic after another packet with so many bytes received and sent.
    pub open spec fn with_packet(self, bytes_in: usize, bytes_out: usize) -> Traffic {
        Traffic {
            packets: self.packets.wrapping_add(1),
            received: self.received.wrapping_add(bytes_in as u64),
            sent: self.sent.wrapping_add(bytes_out as u64),
        }
    }
}

impl RelayStatistics {
    /// `udp_relay_core::TunnelClient::new`: the statistics of a new client hold nothing.
    #[verifier::external_body]
    fn new(timeout_seconds: u64) -> (statistics: Self)
        ensures
            recorded_traffic(statistics) == Traffic::zero(),
    {
        RelayStatistics { client: udp_relay_core::TunnelClient::new(timeout_seconds) }
    }

    /// `udp_relay_core::TunnelClient::update_stats`: records a packet with so many bytes received
    /// and sent. The bandwidth that it estimates from them and from the time is not stated. Its
    /// sums must not overflow.
    #[verifier::external_body]
    fn update_stats(&mut self, bytes_in: usize, bytes_out: usize, now: u64)
        requires
            recorded_traffic(*old(self)).has_room(bytes_in + bytes_out),
        ensures
            recorded_traffic(*final(self)) == recorded_traffic(*old(self)).with_packet(
                bytes_in,
                bytes_out,
            ),
    {
        self.client.update_stats(bytes_in, bytes_out, now)
    }
}

/// Counts of packets.
pub struct Losses {
    pub lost: nat,
    pub total: nat,
}

impl Losses {
    pub open spec fn wf(self) -> bool {
        self.lost <= self.total <= MAX_COUNTED_PACKETS
    }

    /// The counts after another packet. They are halved when there are too many.
    pub open spec fn with_packet(self, packet_lost: bool) -> Losses {
        let lost = if packet_lost {
            self.lost + 1
        } else {
            self.lost
        };
        if self.total + 1 > MAX_COUNTED_PACKETS {
            Losses { lost: lost / 2, total: (self.total + 1) / 2 }
        } else {
            Losses { lost, total: self.total + 1 }
        }
    }
}

impl RelayQuality {
    /// `udp_relay_core::QualityAnalyzer::new`: nothing has been counted.
    #[verifier::external_body]
    pub(crate) fn new() -> (quality: Self)
        ensures
            counted_losses(quality) == (Losses { lost: 0, total: 0 }),
    {
        RelayQuality { analyzer: udp_relay_core::QualityAnalyzer::new() }
    }

    /// `udp_relay_core::QualityAnalyzer::record_packet`: counts a packet, lost or not.
    #[verifier::external_body]
    pub(crate) fn record_packet(&mut self, lost: bool)
        requires
            counted_losses(*old(self)).wf(),
        ensures
            counted_losses(*final(self)) == counted_losses(*old(self)).with_packet(lost),
    {
        self.analyzer.record_packet(lost)
    }
}

/// What a tunnel knows of a client. Times are Unix times in seconds.
#[derive(Clone, Copy)]
pub struct RelayRecord {
    /// The address that the client sends from.
    pub remote_ep: Option<SocketAddr>,
    pub last_receive: u64,
    pub timeout: u64,
    /// What has been recorded of the client.
    pub traffic: Traffic,
}

impl RelayRecord {
    /// A client that is heard of at `now`.
    pub open spec fn fresh(
        remote_ep: Option<SocketAddr>,
        timeout: u64,
        now: u64,
    ) -> RelayRecord {
        RelayRecord { remote_ep, last_receive: now, timeout, traffic: Traffic::zero() }
    }

    /// Whether nothing has been received for the timeout at `now`.
    pub open spec fn timed_out(self, now: u64) -> bool {
        if now >= self.last_receive {
            now - self.last_receive >= self.timeout
        } else {
            self.timeout == 0
        }
    }

    /// Whether the client has timed out at `now`.
    pub fn is_timed_out_at(&self, now: u64) -> (timed_out: bool)
        ensures
            timed_out == self.timed_out(now),
    {
        now.saturating_sub(self.last_receive) >= self.timeout
    }

    /// The client after a packet at `now`.
    pub open spec fn heard(self, now: u64) -> RelayRecord {
        RelayRecord { last_receive: now, ..self }
    }

    /// The client after a packet with so many bytes received and sent.
    pub open spec fn with_traffic(self, bytes_in: usize, bytes_out: usize) -> RelayRecord {
        RelayRecord { traffic: self.traffic.with_packet(bytes_in, bytes_out), ..self }
    }
}

/// A client of a tunnel. Its packets and bytes are always counted; the statistics, which hold an
/// estimate of the bandwidth beside them, are kept as long as there are not too many bytes for
/// that.
pub struct RelayClient {
    record: RelayRecord,
    statistics: RelayStatistics,
    estimated: bool,
}

impl View for RelayClient {
    type V = RelayRecord;

    closed spec fn view(&self) -> RelayRecord {
        self.record
    }
}

impl RelayClient {
    /// As long as they are kept, the statistics hold what has been recorded.
    #[verifier::type_invariant]
    spec fn statistics_agree(self) -> bool {
        self.estimated ==> recorded_traffic(self.statistics) == self.record.traffic
            && self.record.traffic.has_room(0)
    }

    /// Records a packet with so many bytes received and sent.
    fn recorded(self, bytes_in: usize, bytes_out: usize, now: u64) -> (client: Self)
        ensures
            client@ == self@.with_traffic(bytes_in, bytes_out),
    {
        proof {
            use_type_invariant(&self);
        }
        let mut record = self.record;
        let mut statistics = self.statistics;
        let traffic = record.traffic;
        let estimated = self.estimated && traffic.received as u128 + traffic.sent as u128
            + bytes_in as u128 + bytes_out as u128 <= MAX_ESTIMATED as u128;
        if estimated {
            statistics.update_stats(bytes_in, bytes_out, now);
        }
        record.traffic = Traffic {
            packets: traffic.packets.wrapping_add(1),
            received: traffic.received.wrapping_add(bytes_in as u64),
            sent: traffic.sent.wrapping_add(bytes_out as u64),
        };
        RelayClient { record, statistics, estimated }
    }

    /// A client that is heard of at `now`.
    pub fn new_at(remote_ep: Option<SocketAddr>, timeout: u64, now: u64) -> (client: Self)
        ensures
            client@ == RelayRecord::fresh(remote_ep, timeout, now),
    {
        RelayClient {
            record: RelayRecord {
                remote_ep,
                last_receive: now,
                timeout,
                traffic: Traffic { packets: 0, received: 0, sent: 0 },
            },
            statistics: RelayStatistics::new(timeout),
            estimated: true,
        }
    }

    /// What is known of the client.
    pub fn record(&self) -> (record: RelayRecord)
        ensures
            record == self@,
    {
        self.record
    }

    /// Whether the client has timed out at `now`.
    pub fn is_timed_out_at(&self, now: u64) -> (timed_out: bool)
        ensures
            timed_out == self@.timed_out(now),
    {
        self.record.is_timed_out_at(now)
    }

    /// Records a packet of so many bytes from the client at `now`.
    pub fn received_at(self, bytes: usize, now: u64) -> (client: Self)
        ensures
            client@ == self@.heard(now).with_traffic(bytes, 0),
    {
        proof {
            use_type_invariant(&self);
        }
        let mut record = self.record;
        record.last_receive = now;
        let client = RelayClient { record, statistics: self.statistics, estimated: self.estimated };
        client.recorded(bytes, 0, now)
    }

    /// Records a packet of so many bytes to the client at `now`.
    pub fn sent_at(self, bytes: usize, now: u64) -> (client: Self)
        ensures
            client@ == self@.with_traffic(0, bytes),
    {
        self.recorded(0, bytes, now)
    }
}

/// What is known of each client of a table.
pub open spec fn records<K>(clients: Map<K, RelayClient>) -> Map<K, RelayRecord> {
    clients.map_values(|client: RelayClient| client@)
}

/// Every client has a record.
pub proof fn lemma_records_dom<K>(clients: Map<K, RelayClient>)
    ensures
        records(clients).dom() == clients.dom(),
{
    assert(records(clients).dom() =~= clients.dom());
}

/// Adding a client adds its record.
pub proof fn lemma_records_insert<K>(clients: Map<K, RelayClient>, key: K, client: RelayClient)
    ensures
        records(clients.insert(key, client)) == records(clients).insert(key, client@),
        records(clients.remove(key).insert(key, client)) == records(clients).insert(key, client@),
{
    assert(records(clients.insert(key, client)) =~= records(clients).insert(key, client@));
    assert(clients.remove(key).insert(key, client) =~= clients.insert(key, client));
}

/// Removing a client removes its record.
pub proof fn lemma_records_remove<K>(clients: Map<K, RelayClient>, key: K)
    ensures
        records(clients.remove(key)) == records(clients).remove(key),
{
    assert(records(clients.remove(key)) =~= records(clients).remove(key));
}

/// The counts of each analyzer of a table.
pub open spec fn losses<K>(analyzers: Map<K, RelayQuality>) -> Map<K, Losses> {
    analyzers.map_values(|quality: RelayQuality| counted_losses(quality))
}

/// A client has timed out exactly if its timeout has passed since it was last heard.
pub proof fn law_timeout_counts_from_the_last_packet(record: RelayRecord, now: u64)
    ensures
        record.timed_out(now) <==> record.timeout == 0 || now >= record.last_receive
            + record.timeout,
{
}

/// A new client was heard of just now, at the given address, and nothing is counted of it.
pub proof fn law_new_client_was_just_heard(
    remote_ep: Option<SocketAddr>,
    timeout: u64,
    now: u64,
)
    ensures
        ({
            let record = RelayRecord::fresh(remote_ep, timeout, now);
            &&& record.remote_ep == remote_ep
            &&& record.last_receive == now
            &&& record.timeout == timeout
            &&& record.traffic.packets == 0
            &&& record.traffic.received == 0
            &&& record.traffic.sent == 0
            &&& timeout > 0 ==> !record.timed_out(now)
        }),
{
}

/// Hearing a client moves the time at which it was last heard, and nothing else. Traffic is
/// counted by direction: one packet more, and so many bytes more received and sent.
pub proof fn law_traffic_is_counted_by_direction(
    record: RelayRecord,
    bytes_in: usize,
    bytes_out: usize,
    now: u64,
)
    ensures
        record.heard(now) == (RelayRecord { last_receive: now, ..record }),
        ({
            let after = record.with_traffic(bytes_in, bytes_out);
            &&& after == (RelayRecord { traffic: after.traffic, ..record })
            &&& after.traffic.packets == record.traffic.packets.wrapping_add(1)
            &&& after.traffic.received == record.traffic.received.wrapping_add(bytes_in as u64)
            &&& after.traffic.sent == record.traffic.sent.wrapping_add(bytes_out as u64)
        }),
{
}

/// Up to ten thousand packets are counted, lost ones among them; with one more both counts are
/// halved. So no more are ever lost than are counted.
pub proof fn law_losses_are_counted(losses: Losses, lost: bool)
    requires
        losses.wf(),
    ensures
        ({
            let after = losses.with_packet(lost);
            &&& after.wf()
            &&& losses.total < 10_000 ==> after.total == losses.total + 1 && after.lost
                == losses.lost + if lost {
                1int
            } else {
                0int
            }
            &&& losses.total == 10_000 ==> after.total == 5_000 && after.lost == (losses.lost
                + if lost {
                1int
            } else {
                0int
            }) / 2
        }),
{
}

} // verus!
