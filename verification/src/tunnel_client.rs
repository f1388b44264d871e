//! Clients of the tunnels, with traffic statistics and priority, and connection quality.

use core::cmp::Ordering;

use vstd::prelude::*;
use vstd::std_specs::cmp::{PartialEqSpec, PartialOrdSpec};

use crate::addr::SocketAddr;
use crate::clock::{unix_secs, unix_secs_at};

verus! {

/// A client of a tunnel. Times are Unix times in seconds.
#[derive(Clone, Copy)]
pub struct TunnelClient {
    /// The address that the client sends from.
    pub remote_ep: Option<SocketAddr>,
    pub last_receive_tick: u64,
    pub timeout_seconds: u64,
    pub packet_count: u64,
    pub bytes_received: u64,
    pub bytes_sent: u64,
    /// Smoothed bandwidth in bytes per second.
    pub bandwidth_estimate: u64,
    pub last_bandwidth_calc: u64,
    /// The higher, the sooner the client is served.
    pub priority_score: u64,
    pub latency_ms: u32,
    /// Lost packets in a thousand.
    pub packet_loss_rate: u32,
    pub connection_start: u64,
    /// Whether the bandwidth is less than 100 KB per second.
    pub slow: bool,
}

pub open spec fn min_int(a: int, b: int) -> int {
    if a <= b {
        a
    } else {
        b
    }
}

impl TunnelClient {
    /// A client that is heard of at `now`.
    pub open spec fn fresh(
        remote_ep: Option<SocketAddr>,
        timeout_seconds: u64,
        now: u64,
    ) -> TunnelClient {
        TunnelClient {
            remote_ep,
            last_receive_tick: now,
            timeout_seconds,
            packet_count: 0,
            bytes_received: 0,
            bytes_sent: 0,
            bandwidth_estimate: 0,
            last_bandwidth_calc: now,
            priority_score: 1000,
            latency_ms: 0,
            packet_loss_rate: 0,
            connection_start: now,
            slow: false,
        }
    }

    /// Whether nothing has been received for the timeout at `now`.
    pub open spec fn timed_out(self, now: u64) -> bool {
        if now >= self.last_receive_tick {
            now - self.last_receive_tick >= self.timeout_seconds
        } else {
            self.timeout_seconds == 0
        }
    }

    /// Seconds since the client connected.
    pub open spec fn age(self, now: u64) -> u64 {
        if now >= self.connection_start {
            (now - self.connection_start) as u64
        } else {
            0
        }
    }

    /// The priority at `now`: low bandwidth, high latency, many lost packets and a long
    /// connection raise it.
    pub open spec fn priority(self, now: u64) -> int {
        let bandwidth = if self.bandwidth_estimate < 100 {
            100
        } else {
            self.bandwidth_estimate as int
        };
        1_000_000int / (bandwidth + 1000) + min_int(self.latency_ms as int, 500)
            + self.packet_loss_rate + min_int(self.age(now) as int / 10, 100)
    }

    /// The client with its priority as of `now`.
    pub open spec fn prioritized(self, now: u64) -> TunnelClient {
        TunnelClient {
            priority_score: self.priority(now) as u64,
            slow: self.bandwidth_estimate < 100_000,
            ..self
        }
    }

    /// The client with the given latency, and its priority as of `now`.
    pub open spec fn with_latency(self, latency_ms: u32, now: u64) -> TunnelClient {
        TunnelClient { latency_ms, ..self }.prioritized(now)
    }

    /// The client with the given rate of lost packets, at most a thousand in a thousand, and its
    /// priority as of `now`.
    pub open spec fn with_loss_rate(self, rate: u32, now: u64) -> TunnelClient {
        TunnelClient {
            packet_loss_rate: min_int(rate as int, 1000) as u32,
            ..self
        }.prioritized(now)
    }

    /// The new bandwidth estimate at `now`: three tenths of the average since the last estimate,
    /// and seven tenths of the last estimate.
    pub open spec fn next_estimate(self, now: u64) -> int {
        let average = (self.bytes_received + self.bytes_sent) / (now - self.last_bandwidth_calc);
        min_int((self.bandwidth_estimate * 7 + average * 3) / 10, u64::MAX as int)
    }

    /// The client after a packet of `bytes_in` received and `bytes_out` sent bytes at `now`. At
    /// most once a second the bandwidth is estimated anew.
    pub open spec fn with_stats(self, bytes_in: usize, bytes_out: usize, now: u64) -> TunnelClient {
        let counted = TunnelClient {
            packet_count: self.packet_count.wrapping_add(1),
            bytes_received: self.bytes_received.wrapping_add(bytes_in as u64),
            bytes_sent: self.bytes_sent.wrapping_add(bytes_out as u64),
            ..self
        };
        if now > self.last_bandwidth_calc {
            TunnelClient {
                bandwidth_estimate: counted.next_estimate(now) as u64,
                last_bandwidth_calc: now,
                ..counted
            }.prioritized(now)
        } else {
            counted
        }
    }

    /// A client that is heard of at `now`, from an address that is not known yet.
    pub fn new_at(timeout_seconds: u64, now: u64) -> (client: Self)
        ensures
            client == TunnelClient::fresh(None, timeout_seconds, now),
    {
        TunnelClient {
            remote_ep: None,
            last_receive_tick: now,
            timeout_seconds,
            packet_count: 0,
            bytes_received: 0,
            bytes_sent: 0,
            bandwidth_estimate: 0,
            last_bandwidth_calc: now,
            priority_score: 1000,
            latency_ms: 0,
            packet_loss_rate: 0,
            connection_start: now,
            slow: false,
        }
    }

    /// A client that is heard of now, from an address that is not known yet.
    pub fn new(timeout_seconds: u64) -> (client: Self)
        ensures
            exists|time: std::time::SystemTime|
                client == TunnelClient::fresh(None, timeout_seconds, #[trigger] unix_secs_at(time)),
    {
        let now: u64 = unix_secs();
        TunnelClient::new_at(timeout_seconds, now)
    }

    /// A client that is heard of at `now`, from `addr`.
    pub fn new_with_endpoint_at(addr: SocketAddr, timeout_seconds: u64, now: u64) -> (client: Self)
        ensures
            client == TunnelClient::fresh(Some(addr), timeout_seconds, now),
    {
        let client = TunnelClient::new_at(timeout_seconds, now);
        TunnelClient { remote_ep: Some(addr), ..client }
    }

    /// A client that is heard of now, from `addr`.
    pub fn new_with_endpoint(addr: SocketAddr, timeout_seconds: u64) -> (client: Self)
        ensures
            exists|time: std::time::SystemTime|
                client == TunnelClient::fresh(Some(addr), timeout_seconds, #[trigger] unix_secs_at(time)),
    {
        let now: u64 = unix_secs();
        TunnelClient::new_with_endpoint_at(addr, timeout_seconds, now)
    }

    /// Records a packet from the client at `now`.
    pub fn set_last_receive_tick_at(&mut self, now: u64)
        ensures
            *final(self) == (TunnelClient { last_receive_tick: now, ..*old(self) }),
    {
        self.last_receive_tick = now;
    }

    /// Records a packet from the client.
    pub fn set_last_receive_tick(&mut self)
        ensures
            exists|time: std::time::SystemTime|
                *final(self) == with_tick(*old(self), #[trigger] unix_secs_at(time)),
    {
        let now: u64 = unix_secs();
        self.set_last_receive_tick_at(now);
        assert(*self == with_tick(*old(self), now));
    }

    /// Whether the client has timed out at `now`.
    pub fn is_timed_out_at(&self, now: u64) -> (timed_out: bool)
        ensures
            timed_out == self.timed_out(now),
    {
        now.saturating_sub(self.last_receive_tick) >= self.timeout_seconds
    }

    /// Whether the client has timed out.
    pub fn is_timed_out(&self) -> (timed_out: bool)
        ensures
            exists|time: std::time::SystemTime|
                timed_out == self.timed_out(#[trigger] unix_secs_at(time)),
    {
        let now: u64 = unix_secs();
        self.is_timed_out_at(now)
    }

    /// Records a packet of `bytes_in` received and `bytes_out` sent bytes at `now`.
    pub fn update_stats_at(&mut self, bytes_in: usize, bytes_out: usize, now: u64)
        ensures
            *final(self) == old(self).with_stats(bytes_in, bytes_out, now),
    {
        self.packet_count = self.packet_count.wrapping_add(1);
        self.bytes_received = self.bytes_received.wrapping_add(bytes_in as u64);
        self.bytes_sent = self.bytes_sent.wrapping_add(bytes_out as u64);
        if now > self.last_bandwidth_calc {
            let time_delta: u64 = now - self.last_bandwidth_calc;
            let total: u128 = self.bytes_received as u128 + self.bytes_sent as u128;
            let average: u128 = total / time_delta as u128;
            proof {
                assert(average <= total) by (nonlinear_arith)
                    requires
                        average == total / time_delta as u128,
                        time_delta > 0,
                ;
            }
            let estimate: u128 = (self.bandwidth_estimate as u128 * 7 + average * 3) / 10;
            self.bandwidth_estimate = if estimate > u64::MAX as u128 {
                u64::MAX
            } else {
                estimate as u64
            };
            self.last_bandwidth_calc = now;
            self.update_priority_at(now);
        }
    }

    /// Records a packet of `bytes_in` received and `bytes_out` sent bytes.
    pub fn update_stats(&mut self, bytes_in: usize, bytes_out: usize)
        ensures
            exists|time: std::time::SystemTime|
                *final(self) == old(self).with_stats(bytes_in, bytes_out, #[trigger] unix_secs_at(time)),
    {
        let now: u64 = unix_secs();
        self.update_stats_at(bytes_in, bytes_out, now)
    }

    /// Computes the priority as of `now`.
    pub fn update_priority_at(&mut self, now: u64)
        ensures
            *final(self) == old(self).prioritized(now),
            0 <= old(self).priority(now) <= u64::MAX,
    {
        let bandwidth: u128 = if self.bandwidth_estimate < 100 {
            100
        } else {
            self.bandwidth_estimate as u128
        };
        let bandwidth_score: u64 = (1_000_000 / (bandwidth + 1000)) as u64;
        proof {
            assert(1_000_000int / (bandwidth + 1000) <= 1_000_000) by (nonlinear_arith)
                requires
                    bandwidth >= 100,
            ;
            assert(1_000_000int / (bandwidth + 1000) >= 0) by (nonlinear_arith)
                requires
                    bandwidth >= 100,
            ;
        }
        let latency_score: u64 = if self.latency_ms > 500 {
            500
        } else {
            self.latency_ms as u64
        };
        let age: u64 = now.saturating_sub(self.connection_start) / 10;
        let age_score: u64 = if age > 100 {
            100
        } else {
            age
        };
        self.priority_score = bandwidth_score + latency_score + self.packet_loss_rate as u64
            + age_score;
        self.slow = self.bandwidth_estimate < 100_000;
    }

    /// Computes the priority as of now.
    pub fn update_priority(&mut self)
        ensures
            exists|time: std::time::SystemTime|
                *final(self) == old(self).prioritized(#[trigger] unix_secs_at(time)),
    {
        let now: u64 = unix_secs();
        self.update_priority_at(now)
    }

    /// The priority as it was last computed.
    pub fn get_priority(&self) -> (priority: u64)
        ensures
            priority == self.priority_score,
    {
        self.priority_score
    }

    /// Sets the latency and computes the priority as of `now`.
    pub fn set_latency_at(&mut self, latency_ms: u32, now: u64)
        ensures
            *final(self) == old(self).with_latency(latency_ms, now),
    {
        self.latency_ms = latency_ms;
        self.update_priority_at(now);
    }

    /// Sets the latency and computes the priority.
    pub fn set_latency(&mut self, latency_ms: u32)
        ensures
            exists|time: std::time::SystemTime|
                *final(self) == old(self).with_latency(latency_ms, #[trigger] unix_secs_at(time)),
    {
        let now: u64 = unix_secs();
        self.set_latency_at(latency_ms, now)
    }

    /// Sets the rate of lost packets, at most a thousand in a thousand, and computes the priority
    /// as of `now`.
    pub fn set_packet_loss_rate_at(&mut self, rate: u32, now: u64)
        ensures
            *final(self) == old(self).with_loss_rate(rate, now),
    {
        self.packet_loss_rate = if rate > 1000 {
            1000
        } else {
            rate
        };
        self.update_priority_at(now);
    }

    /// Sets the rate of lost packets, at most a thousand in a thousand, and computes the priority.
    pub fn set_packet_loss_rate(&mut self, rate: u32)
        ensures
            exists|time: std::time::SystemTime|
                *final(self) == old(self).with_loss_rate(rate, #[trigger] unix_secs_at(time)),
    {
        let now: u64 = unix_secs();
        self.set_packet_loss_rate_at(rate, now)
    }

    /// Whether the bandwidth was less than 100 KB per second when the priority was last computed.
    pub fn is_slow_connection(&self) -> (slow: bool)
        ensures
            slow == self.slow,
    {
        self.slow
    }

    /// What is known of the connection at `now`.
    pub fn get_connection_info_at(&self, now: u64) -> (info: ConnectionInfo)
        ensures
            info == connection_info(*self, now),
    {
        ConnectionInfo {
            endpoint: self.remote_ep,
            packet_count: self.packet_count,
            bytes_received: self.bytes_received,
            bytes_sent: self.bytes_sent,
            bandwidth_bps: self.bandwidth_estimate,
            latency_ms: self.latency_ms,
            packet_loss_rate: self.packet_loss_rate,
            priority_score: self.priority_score,
            connection_age_secs: now.saturating_sub(self.connection_start),
            is_slow: self.slow,
            is_timed_out: self.is_timed_out_at(now),
        }
    }

    /// What is known of the connection.
    pub fn get_connection_info(&self) -> (info: ConnectionInfo)
        ensures
            exists|time: std::time::SystemTime|
                info == connection_info(*self, #[trigger] unix_secs_at(time)),
    {
        let now: u64 = unix_secs();
        self.get_connection_info_at(now)
    }

    /// Starts the statistics over at `now`.
    pub fn reset_stats_at(&mut self, now: u64)
        ensures
            *final(self) == old(self).without_stats(now),
    {
        self.packet_count = 0;
        self.bytes_received = 0;
        self.bytes_sent = 0;
        self.bandwidth_estimate = 0;
        self.last_bandwidth_calc = now;
        self.connection_start = now;
    }

    /// Starts the statistics over.
    pub fn reset_stats(&mut self)
        ensures
            exists|time: std::time::SystemTime|
                *final(self) == old(self).without_stats(#[trigger] unix_secs_at(time)),
    {
        let now: u64 = unix_secs();
        self.reset_stats_at(now)
    }

    /// The client with statistics that start at `now`.
    pub open spec fn without_stats(self, now: u64) -> TunnelClient {
        TunnelClient {
            packet_count: 0,
            bytes_received: 0,
            bytes_sent: 0,
            bandwidth_estimate: 0,
            last_bandwidth_calc: now,
            connection_start: now,
            ..self
        }
    }
}

/// The client with the time of its last packet.
pub open spec fn with_tick(client: TunnelClient, now: u64) -> TunnelClient {
    TunnelClient { last_receive_tick: now, ..client }
}

/// What is known of a connection.
#[derive(Debug, Clone, Copy)]
pub struct ConnectionInfo {
    pub endpoint: Option<SocketAddr>,
    pub packet_count: u64,
    pub bytes_received: u64,
    pub bytes_sent: u64,
    pub bandwidth_bps: u64,
    pub latency_ms: u32,
    pub packet_loss_rate: u32,
    pub priority_score: u64,
    pub connection_age_secs: u64,
    pub is_slow: bool,
    pub is_timed_out: bool,
}

/// What is known of the connection of a client at `now`.
pub open spec fn connection_info(client: TunnelClient, now: u64) -> ConnectionInfo {
    ConnectionInfo {
        endpoint: client.remote_ep,
        packet_count: client.packet_count,
        bytes_received: client.bytes_received,
        bytes_sent: client.bytes_sent,
        bandwidth_bps: client.bandwidth_estimate,
        latency_ms: client.latency_ms,
        packet_loss_rate: client.packet_loss_rate,
        priority_score: client.priority_score,
        connection_age_secs: client.age(now),
        is_slow: client.slow,
        is_timed_out: client.timed_out(now),
    }
}

impl PartialEq for TunnelClient {
    fn eq(&self, other: &Self) -> (equal: bool) {
        match (self.remote_ep, other.remote_ep) {
            (Some(a), Some(b)) => a == b,
            (None, None) => true,
            _ => false,
        }
    }
}

impl vstd::std_specs::cmp::PartialEqSpecImpl for TunnelClient {
    open spec fn obeys_eq_spec() -> bool {
        true
    }

    /// Clients are equal when they send from the same address.
    open spec fn eq_spec(&self, other: &Self) -> bool {
        self.remote_ep == other.remote_ep
    }
}

impl Eq for TunnelClient {

}

impl PartialOrd for TunnelClient {
    fn partial_cmp(&self, other: &Self) -> (order: Option<Ordering>) {
        if other.priority_score < self.priority_score {
            Some(Ordering::Less)
        } else if other.priority_score > self.priority_score {
            Some(Ordering::Greater)
        } else {
            Some(Ordering::Equal)
        }
    }
}

impl vstd::std_specs::cmp::PartialOrdSpecImpl for TunnelClient {
    open spec fn obeys_partial_cmp_spec() -> bool {
        true
    }

    /// A client with a higher priority comes first.
    open spec fn partial_cmp_spec(&self, other: &Self) -> Option<Ordering> {
        if other.priority_score < self.priority_score {
            Some(Ordering::Less)
        } else if other.priority_score > self.priority_score {
            Some(Ordering::Greater)
        } else {
            Some(Ordering::Equal)
        }
    }
}

/// The most latency samples that are kept.
pub const MAX_SAMPLES: usize = 100;

/// Seconds for which a latency sample is kept.
pub const SAMPLE_LIFETIME_SECS: u64 = 60;

/// Packets after which the counts are halved.
pub const MAX_COUNTED_PACKETS: u32 = 10_000;

/// Latency samples and packet counts of a connection.
#[verifier::ext_equal]
pub struct Quality {
    /// Unix time in seconds and latency in milliseconds of each sample, the oldest first.
    pub samples: Seq<(u64, u32)>,
    pub lost: u32,
    pub total: u32,
}

/// The samples that are not older than a minute at `now`.
pub open spec fn recent(samples: Seq<(u64, u32)>, now: u64) -> Seq<(u64, u32)> {
    samples.filter(
        |sample: (u64, u32)| sample.0 > now.saturating_sub(SAMPLE_LIFETIME_SECS),
    )
}

/// The last hundred samples.
pub open spec fn newest(samples: Seq<(u64, u32)>) -> Seq<(u64, u32)> {
    if samples.len() > MAX_SAMPLES {
        samples.skip(samples.len() - MAX_SAMPLES)
    } else {
        samples
    }
}

/// The sum of the latencies.
pub open spec fn total_latency(samples: Seq<(u64, u32)>) -> int
    decreases samples.len(),
{
    if samples.len() == 0 {
        0
    } else {
        total_latency(samples.drop_last()) + samples.last().1
    }
}

/// A latency as a signed 32-bit number.
pub open spec fn signed_latency(latency: u32) -> int {
    if latency >= 0x8000_0000 {
        latency - 0x1_0000_0000
    } else {
        latency as int
    }
}

/// How much two latencies differ.
pub open spec fn difference(a: u32, b: u32) -> int {
    if signed_latency(a) >= signed_latency(b) {
        signed_latency(a) - signed_latency(b)
    } else {
        signed_latency(b) - signed_latency(a)
    }
}

/// The sum of the differences between samples that follow each other.
pub open spec fn total_difference(samples: Seq<(u64, u32)>) -> int
    decreases samples.len(),
{
    if samples.len() < 2 {
        0
    } else {
        total_difference(samples.drop_last()) + difference(
            samples.last().1,
            samples[samples.len() - 2].1,
        )
    }
}

impl Quality {
    pub open spec fn wf(self) -> bool {
        self.samples.len() <= MAX_SAMPLES && self.lost <= self.total <= MAX_COUNTED_PACKETS
    }

    /// The quality after a latency sample at `now`.
    pub open spec fn with_sample(self, latency_ms: u32, now: u64) -> Quality {
        Quality { samples: newest(recent(self.samples.push((now, latency_ms)), now)), ..self }
    }

    /// The quality after another packet.
    pub open spec fn with_packet(self, lost: bool) -> Quality {
        let total = self.total + 1;
        let losses = if lost {
            self.lost + 1
        } else {
            self.lost as int
        };
        if total > MAX_COUNTED_PACKETS {
            Quality { lost: (losses / 2) as u32, total: (total / 2) as u32, ..self }
        } else {
            Quality { lost: losses as u32, total: total as u32, ..self }
        }
    }

    /// The average latency, or 0 without samples.
    pub open spec fn average_latency(self) -> int {
        if self.samples.len() == 0 {
            0
        } else {
            total_latency(self.samples) / self.samples.len() as int
        }
    }

    /// Lost packets in a thousand, or 0 without packets.
    pub open spec fn loss_rate(self) -> int {
        if self.total == 0 {
            0
        } else {
            (self.lost * 1000) / self.total as int
        }
    }

    /// The average difference between samples that follow each other, or 0 without two samples.
    pub open spec fn jitter(self) -> int {
        if self.samples.len() < 2 {
            0
        } else {
            total_difference(self.samples) / (self.samples.len() - 1)
        }
    }
}

/// Connection quality analyzer.
pub struct QualityAnalyzer {
    samples: Vec<(u64, u32)>,
    loss_count: u32,
    total_count: u32,
}

impl View for QualityAnalyzer {
    type V = Quality;

    closed spec fn view(&self) -> Quality {
        Quality { samples: self.samples@, lost: self.loss_count, total: self.total_count }
    }
}

impl QualityAnalyzer {
    /// Nothing is known yet.
    pub fn new() -> (analyzer: Self)
        ensures
            analyzer@ == (Quality { samples: Seq::empty(), lost: 0, total: 0 }),
            analyzer@.wf(),
    {
        QualityAnalyzer { samples: Vec::with_capacity(100), loss_count: 0, total_count: 0 }
    }

    /// Adds a latency sample at `now`.
    pub fn add_latency_sample_at(&mut self, latency_ms: u32, now: u64)
        requires
            old(self)@.wf(),
        ensures
            final(self)@ == old(self)@.with_sample(latency_ms, now),
            final(self)@.wf(),
    {
        let ghost before = self.samples@;
        self.samples.push((now, latency_ms));
        let cutoff: u64 = now.saturating_sub(SAMPLE_LIFETIME_SECS);
        let ghost all = self.samples@;
        let mut kept: Vec<(u64, u32)> = Vec::new();
        let mut i: usize = 0;
        while i < self.samples.len()
            invariant
                i <= self.samples@.len(),
                self.samples@ == all,
                cutoff == now.saturating_sub(SAMPLE_LIFETIME_SECS),
                kept@ == recent(all.take(i as int), now),
                kept@.len() <= i,
                self.loss_count == old(self).loss_count,
                self.total_count == old(self).total_count,
            decreases self.samples@.len() - i,
        {
            let sample = self.samples[i];
            i = i + 1;
            proof {
                reveal(Seq::filter);
                assert(all.take(i as int).drop_last() =~= all.take(i - 1));
            }
            if sample.0 > cutoff {
                kept.push(sample);
            }
        }
        assert(all.take(i as int) =~= all);
        let ghost filtered = kept@;
        if kept.len() > MAX_SAMPLES {
            let excess: usize = kept.len() - MAX_SAMPLES;
            let mut last: Vec<(u64, u32)> = Vec::new();
            let mut j: usize = excess;
            while j < kept.len()
                invariant
                    excess <= j <= kept@.len(),
                    kept@ == filtered,
                    last@ == filtered.subrange(excess as int, j as int),
                decreases kept@.len() - j,
            {
                last.push(kept[j]);
                j = j + 1;
                assert(filtered.subrange(excess as int, j as int) =~= filtered.subrange(
                    excess as int,
                    j - 1,
                ).push(filtered[j - 1]));
            }
            assert(last@ =~= newest(filtered));
            kept = last;
        }
        self.samples = kept;
    }

    /// Adds a latency sample.
    pub fn add_latency_sample(&mut self, latency_ms: u32)
        requires
            old(self)@.wf(),
        ensures
            final(self)@.wf(),
            exists|time: std::time::SystemTime|
                final(self)@ == old(self)@.with_sample(latency_ms, #[trigger] unix_secs_at(time)),
    {
        let now: u64 = unix_secs();
        self.add_latency_sample_at(latency_ms, now)
    }

    /// Counts a packet, lost or not.
    pub fn record_packet(&mut self, lost: bool)
        requires
            old(self)@.wf(),
        ensures
            final(self)@ == old(self)@.with_packet(lost),
            final(self)@.wf(),
    {
        self.total_count = self.total_count + 1;
        if lost {
            self.loss_count = self.loss_count + 1;
        }
        if self.total_count > MAX_COUNTED_PACKETS {
            self.loss_count = self.loss_count / 2;
            self.total_count = self.total_count / 2;
        }
    }

    /// The average latency.
    pub fn get_average_latency(&self) -> (latency: u32)
        requires
            self@.wf(),
        ensures
            latency == self@.average_latency(),
    {
        if self.samples.len() == 0 {
            return 0;
        }
        let mut sum: u64 = 0;
        let mut i: usize = 0;
        while i < self.samples.len()
            invariant
                i <= self.samples@.len() <= MAX_SAMPLES,
                sum == total_latency(self.samples@.take(i as int)),
                sum <= i * 0xffff_ffff,
            decreases self.samples@.len() - i,
        {
            sum = sum + self.samples[i].1 as u64;
            i = i + 1;
            assert(self.samples@.take(i as int).drop_last() =~= self.samples@.take(i - 1));
        }
        assert(self.samples@.take(i as int) =~= self.samples@);
        let n: u64 = self.samples.len() as u64;
        assert(sum / n <= 0xffff_ffff) by (nonlinear_arith)
            requires
                sum <= n * 0xffff_ffff,
                n > 0,
        ;
        (sum / n) as u32
    }

    /// Lost packets in a thousand.
    pub fn get_packet_loss_rate(&self) -> (rate: u32)
        requires
            self@.wf(),
        ensures
            rate == self@.loss_rate(),
            rate <= 1000,
    {
        if self.total_count == 0 {
            return 0;
        }
        let lost: u64 = self.loss_count as u64;
        let total: u64 = self.total_count as u64;
        assert(lost * 1000 / total as int <= 1000) by (nonlinear_arith)
            requires
                lost <= total,
                total > 0,
        ;
        (lost * 1000 / total) as u32
    }

    /// The average difference between samples that follow each other.
    pub fn get_jitter(&self) -> (jitter: u32)
        requires
            self@.wf(),
        ensures
            jitter == self@.jitter(),
    {
        if self.samples.len() < 2 {
            return 0;
        }
        let mut sum: u64 = 0;
        let mut i: usize = 1;
        assert(total_difference(self.samples@.take(1)) == 0);
        while i < self.samples.len()
            invariant
                1 <= i <= self.samples@.len() <= MAX_SAMPLES,
                sum == total_difference(self.samples@.take(i as int)),
                sum <= (i - 1) * 0xffff_ffff,
            decreases self.samples@.len() - i,
        {
            let a: i64 = Self::signed(self.samples[i].1);
            let b: i64 = Self::signed(self.samples[i - 1].1);
            let diff: u64 = if a >= b {
                (a - b) as u64
            } else {
                (b - a) as u64
            };
            sum = sum + diff;
            i = i + 1;
            proof {
                let shown = self.samples@.take(i as int);
                assert(shown.drop_last() =~= self.samples@.take(i - 1));
                assert(shown.last() == self.samples@[i - 1]);
                assert(shown[shown.len() - 2] == self.samples@[i - 2]);
            }
        }
        assert(self.samples@.take(i as int) =~= self.samples@);
        let n: u64 = (self.samples.len() - 1) as u64;
        assert(sum / n <= 0xffff_ffff) by (nonlinear_arith)
            requires
                sum <= n * 0xffff_ffff,
                n > 0,
        ;
        (sum / n) as u32
    }

    fn signed(latency: u32) -> (n: i64)
        ensures
            n == signed_latency(latency),
    {
        if latency >= 0x8000_0000 {
            latency as i64 - 0x1_0000_0000
        } else {
            latency as i64
        }
    }
}

/// A client that is slower, has a higher latency, loses more packets and has been connected for
/// longer never has a lower priority.
pub proof fn law_slow_and_old_clients_come_first(one: TunnelClient, other: TunnelClient, now: u64)
    requires
        one.bandwidth_estimate <= other.bandwidth_estimate,
        one.latency_ms >= other.latency_ms,
        one.packet_loss_rate >= other.packet_loss_rate,
        one.connection_start <= other.connection_start,
    ensures
        one.priority(now) >= other.priority(now),
{
    let low = if one.bandwidth_estimate < 100 {
        100
    } else {
        one.bandwidth_estimate as int
    };
    let high = if other.bandwidth_estimate < 100 {
        100
    } else {
        other.bandwidth_estimate as int
    };
    vstd::arithmetic::div_mod::lemma_div_is_ordered_by_denominator(
        1_000_000,
        low + 1000,
        high + 1000,
    );
}

/// The priority has bounds: a client whose rate of lost packets is possible gets at most 2509.
pub proof fn law_priority_is_bounded(client: TunnelClient, now: u64)
    requires
        client.packet_loss_rate <= 1000,
    ensures
        0 <= client.priority(now) <= 2509,
{
    let bandwidth = if client.bandwidth_estimate < 100 {
        100
    } else {
        client.bandwidth_estimate as int
    };
    vstd::arithmetic::div_mod::lemma_div_is_ordered_by_denominator(
        1_000_000,
        1100,
        bandwidth + 1000,
    );
    vstd::arithmetic::div_mod::lemma_div_pos_is_pos(1_000_000, bandwidth + 1000);
}

/// Whatever is recorded of a client, its rate of lost packets stays possible, and its address stays.
pub proof fn law_records_keep_loss_rate_possible(
    client: TunnelClient,
    bytes_in: usize,
    bytes_out: usize,
    latency_ms: u32,
    rate: u32,
    now: u64,
)
    requires
        client.packet_loss_rate <= 1000,
    ensures
        client.with_stats(bytes_in, bytes_out, now).packet_loss_rate <= 1000,
        client.with_latency(latency_ms, now).packet_loss_rate <= 1000,
        client.with_loss_rate(rate, now).packet_loss_rate <= 1000,
        client.with_stats(bytes_in, bytes_out, now).remote_ep == client.remote_ep,
        client.with_latency(latency_ms, now).remote_ep == client.remote_ep,
        client.with_loss_rate(rate, now).remote_ep == client.remote_ep,
{
}

/// After a sample there are at most a hundred, none of them older than a minute, and the sample
/// itself is the last one.
pub proof fn law_samples_are_recent(quality: Quality, latency_ms: u32, now: u64)
    requires
        now > 0,
    ensures
        ({
            let samples = quality.with_sample(latency_ms, now).samples;
            &&& 0 < samples.len() <= MAX_SAMPLES
            &&& samples.last() == (now, latency_ms)
            &&& forall|i: int|
                0 <= i < samples.len() ==> (#[trigger] samples[i]).0 > now.saturating_sub(
                    SAMPLE_LIFETIME_SECS,
                )
        }),
{
    let all = quality.samples.push((now, latency_ms));
    let is_recent = |sample: (u64, u32)| sample.0 > now.saturating_sub(SAMPLE_LIFETIME_SECS);
    let kept = recent(all, now);
    reveal(Seq::filter);
    assert(all.drop_last() =~= quality.samples);
    assert(is_recent(all.last()));
    assert(kept == quality.samples.filter(is_recent).push(all.last()));
    assert forall|i: int| 0 <= i < kept.len() implies (#[trigger] kept[i]).0 > now.saturating_sub(
        SAMPLE_LIFETIME_SECS,
    ) by {
        all.lemma_filter_pred(is_recent, i);
    }
}

/// The average latency lies between the lowest and the highest sample.
pub proof fn law_average_is_between(quality: Quality, low: u32, high: u32)
    requires
        quality.samples.len() > 0,
        forall|i: int|
            0 <= i < quality.samples.len() ==> low <= (#[trigger] quality.samples[i]).1 <= high,
    ensures
        low <= quality.average_latency() <= high,
{
    let n = quality.samples.len() as int;
    let sum = total_latency(quality.samples);
    lemma_total_is_between(quality.samples, low, high);
    assert(low <= sum / n <= high) by (nonlinear_arith)
        requires
            n > 0,
            low * n <= sum <= high * n,
    ;
}

proof fn lemma_total_is_between(samples: Seq<(u64, u32)>, low: u32, high: u32)
    requires
        forall|i: int| 0 <= i < samples.len() ==> low <= (#[trigger] samples[i]).1 <= high,
    ensures
        low * samples.len() <= total_latency(samples) <= high * samples.len(),
    decreases samples.len(),
{
    if samples.len() == 0 {
        assert(low * samples.len() == 0 && high * samples.len() == 0) by (nonlinear_arith)
            requires
                samples.len() == 0,
        ;
    } else {
        let rest = samples.drop_last();
        assert forall|i: int| 0 <= i < rest.len() implies low <= (#[trigger] rest[i]).1 <= high by {
            assert(rest[i] == samples[i]);
        }
        lemma_total_is_between(rest, low, high);
        let n = samples.len() as int;
        let last = samples[n - 1];
        assert(low <= last.1 <= high);
        assert(low * n == low * (n - 1) + low) by (nonlinear_arith);
        assert(high * n == high * (n - 1) + high) by (nonlinear_arith);
    }
}

/// A client has timed out exactly if its timeout has passed since its last packet. A packet moves
/// that time and nothing else.
pub proof fn law_timeout_counts_from_the_last_packet(client: TunnelClient, heard_at: u64, now: u64)
    ensures
        client.timed_out(now) <==> client.timeout_seconds == 0 || now >= client.last_receive_tick
            + client.timeout_seconds,
        with_tick(client, heard_at) == (TunnelClient { last_receive_tick: heard_at, ..client }),
        0 < client.timeout_seconds && now < heard_at + client.timeout_seconds ==> !with_tick(
            client,
            heard_at,
        ).timed_out(now),
{
}

/// A new client has counted nothing, was heard of just now, and has priority 1000.
pub proof fn law_new_client_has_counted_nothing(
    remote_ep: Option<SocketAddr>,
    timeout_seconds: u64,
    now: u64,
)
    ensures
        ({
            let client = TunnelClient::fresh(remote_ep, timeout_seconds, now);
            &&& client.remote_ep == remote_ep
            &&& client.timeout_seconds == timeout_seconds
            &&& client.last_receive_tick == now && client.last_bandwidth_calc == now
                && client.connection_start == now
            &&& client.packet_count == 0 && client.bytes_received == 0 && client.bytes_sent == 0
            &&& client.bandwidth_estimate == 0 && client.latency_ms == 0 && client.packet_loss_rate
                == 0
            &&& client.priority_score == 1000
            &&& !client.slow
        }),
{
}

/// The priority is made of four parts: a share for low bandwidth, which is at most that of 100
/// bytes per second; the latency, up to 500; the lost packets in a thousand; and a tenth of the
/// seconds since the client connected, up to 100.
pub proof fn law_priority_has_four_parts(client: TunnelClient, now: u64, share: int)
    requires
        client.bandwidth_estimate >= 100 ==> share * (client.bandwidth_estimate + 1000) <= 1_000_000
            < (share + 1) * (client.bandwidth_estimate + 1000),
        client.bandwidth_estimate < 100 ==> share == 909,
    ensures
        ({
            let latency = if client.latency_ms < 500 {
                client.latency_ms as int
            } else {
                500
            };
            let seconds = if now >= client.connection_start {
                now - client.connection_start
            } else {
                0
            };
            let tenths = if seconds < 1000 {
                seconds / 10
            } else {
                100
            };
            &&& client.priority(now) == share + latency + client.packet_loss_rate + tenths
            &&& client.age(now) == seconds
        }),
{
    if client.bandwidth_estimate >= 100 {
        let divisor = client.bandwidth_estimate + 1000;
        let rest = 1_000_000 - share * divisor;
        assert(0 <= rest < divisor) by (nonlinear_arith)
            requires
                rest == 1_000_000 - share * divisor,
                share * divisor <= 1_000_000 < (share + 1) * divisor,
        ;
        vstd::arithmetic::div_mod::lemma_fundamental_div_mod_converse(
            1_000_000,
            divisor,
            share,
            rest,
        );
    } else {
        assert(1_000_000int / 1100 == 909);
    }
}

/// Setting the priority anew changes it, and whether the client counts as slow, which is below
/// 100000 bytes per second. Setting the latency or the loss rate, which is at most 1000, does that
/// and nothing more.
pub proof fn law_priority_follows_what_is_set(
    client: TunnelClient,
    latency_ms: u32,
    rate: u32,
    now: u64,
)
    requires
        client.packet_loss_rate <= 1000,
    ensures
        ({
            let after = client.prioritized(now);
            &&& after.priority_score == client.priority(now)
            &&& after.slow == (client.bandwidth_estimate < 100_000)
            &&& after == (TunnelClient {
                priority_score: after.priority_score,
                slow: after.slow,
                ..client
            })
        }),
        client.with_latency(latency_ms, now).latency_ms == latency_ms,
        client.with_latency(latency_ms, now) == (TunnelClient { latency_ms, ..client }).prioritized(
            now,
        ),
        client.with_loss_rate(rate, now).packet_loss_rate == if rate < 1000 {
            rate
        } else {
            1000
        },
        client.with_loss_rate(rate, now) == (TunnelClient {
            packet_loss_rate: if rate < 1000 {
                rate
            } else {
                1000
            },
            ..client
        }).prioritized(now),
{
    law_priority_is_bounded(client, now);
}

/// A packet is counted with its bytes by direction. When a second or more has passed since the last
/// estimate, the bandwidth is estimated anew: seven tenths of the old estimate and three tenths of
/// the bytes per second since then, rounded down. Otherwise the estimate and the priority stay.
pub proof fn law_stats_are_counted_and_smoothed(
    client: TunnelClient,
    bytes_in: usize,
    bytes_out: usize,
    now: u64,
    average: int,
)
    requires
        now > client.last_bandwidth_calc ==> ({
            let total = client.bytes_received.wrapping_add(bytes_in as u64)
                + client.bytes_sent.wrapping_add(bytes_out as u64);
            let elapsed = now - client.last_bandwidth_calc;
            average * elapsed <= total < (average + 1) * elapsed
        }),
    ensures
        ({
            let after = client.with_stats(bytes_in, bytes_out, now);
            &&& after.packet_count == client.packet_count.wrapping_add(1)
            &&& after.bytes_received == client.bytes_received.wrapping_add(bytes_in as u64)
            &&& after.bytes_sent == client.bytes_sent.wrapping_add(bytes_out as u64)
            &&& after.remote_ep == client.remote_ep && after.last_receive_tick
                == client.last_receive_tick && after.timeout_seconds == client.timeout_seconds
                && after.latency_ms == client.latency_ms && after.connection_start
                == client.connection_start && after.packet_loss_rate == client.packet_loss_rate
            &&& now <= client.last_bandwidth_calc ==> after.bandwidth_estimate
                == client.bandwidth_estimate && after.priority_score == client.priority_score
                && after.slow == client.slow && after.last_bandwidth_calc
                == client.last_bandwidth_calc
            &&& now > client.last_bandwidth_calc ==> after.last_bandwidth_calc == now && after.slow
                == (after.bandwidth_estimate < 100_000)
            &&& now > client.last_bandwidth_calc && 7 * client.bandwidth_estimate + 3 * average < 10
                * 0xffff_ffff_ffff_ffff ==> 10 * after.bandwidth_estimate <= 7
                * client.bandwidth_estimate + 3 * average < 10 * after.bandwidth_estimate + 10
        }),
{
    if now > client.last_bandwidth_calc {
        let total = client.bytes_received.wrapping_add(bytes_in as u64)
            + client.bytes_sent.wrapping_add(bytes_out as u64);
        let elapsed = now - client.last_bandwidth_calc;
        let rest = total - average * elapsed;
        assert(0 <= rest < elapsed) by (nonlinear_arith)
            requires
                rest == total - average * elapsed,
                average * elapsed <= total < (average + 1) * elapsed,
        ;
        vstd::arithmetic::div_mod::lemma_fundamental_div_mod_converse(
            total,
            elapsed,
            average,
            rest,
        );
        assert(average >= 0) by (nonlinear_arith)
            requires
                total < (average + 1) * elapsed,
                total >= 0,
                elapsed > 0,
        ;
    }
}

/// Starting the statistics over leaves the address, the timeout and the time of the last packet.
pub proof fn law_reset_starts_over(client: TunnelClient, now: u64)
    ensures
        ({
            let after = client.without_stats(now);
            &&& after.packet_count == 0 && after.bytes_received == 0 && after.bytes_sent == 0
                && after.bandwidth_estimate == 0
            &&& after.last_bandwidth_calc == now && after.connection_start == now
            &&& after.remote_ep == client.remote_ep && after.timeout_seconds
                == client.timeout_seconds && after.last_receive_tick == client.last_receive_tick
            &&& after.latency_ms == client.latency_ms && after.packet_loss_rate
                == client.packet_loss_rate && after.priority_score == client.priority_score
                && after.slow == client.slow
        }),
{
}

/// What is told of a connection is what is known of the client.
pub proof fn law_info_tells_the_client(client: TunnelClient, now: u64)
    ensures
        ({
            let info = connection_info(client, now);
            &&& info.endpoint == client.remote_ep
            &&& info.packet_count == client.packet_count
            &&& info.bytes_received == client.bytes_received
            &&& info.bytes_sent == client.bytes_sent
            &&& info.bandwidth_bps == client.bandwidth_estimate
            &&& info.latency_ms == client.latency_ms
            &&& info.packet_loss_rate == client.packet_loss_rate
            &&& info.priority_score == client.priority_score
            &&& info.is_slow == client.slow
            &&& now >= client.connection_start ==> info.connection_age_secs == now
                - client.connection_start
            &&& now < client.connection_start ==> info.connection_age_secs == 0
            &&& info.is_timed_out <==> client.timeout_seconds == 0 || now
                >= client.last_receive_tick + client.timeout_seconds
        }),
{
}

/// Clients are ordered by priority, the highest first.
pub proof fn law_higher_priority_comes_first(one: TunnelClient, other: TunnelClient)
    ensures
        one.partial_cmp_spec(&other) == Some(Ordering::Less) <==> one.priority_score
            > other.priority_score,
        one.partial_cmp_spec(&other) == Some(Ordering::Greater) <==> one.priority_score
            < other.priority_score,
        one.partial_cmp_spec(&other) == Some(Ordering::Equal) <==> one.priority_score
            == other.priority_score,
        one.eq_spec(&other) <==> one.remote_ep == other.remote_ep,
{
}

/// A sample is kept for a minute, and the last hundred of them are: with fewer, and none of them
/// older, the new one is put behind the others. What is kept was there before or is the new one.
pub proof fn law_recent_samples_are_kept(quality: Quality, latency_ms: u32, now: u64)
    requires
        now >= 60,
    ensures
        ({
            let before = quality.samples;
            let after = quality.with_sample(latency_ms, now);
            &&& after.lost == quality.lost && after.total == quality.total
            &&& (forall|i: int| 0 <= i < before.len() ==> (#[trigger] before[i]).0 + 60 > now)
                && before.len() < 100 ==> after.samples == before.push((now, latency_ms))
            &&& (forall|i: int| 0 <= i < before.len() ==> (#[trigger] before[i]).0 + 60 > now)
                && before.len() >= 100 ==> after.samples == before.skip(before.len() - 99).push(
                (now, latency_ms),
            )
            &&& (forall|i: int| 0 <= i < before.len() ==> (#[trigger] before[i]).0 + 60 <= now)
                ==> after.samples == seq![(now, latency_ms)]
        }),
{
    let before = quality.samples;
    let all = before.push((now, latency_ms));
    let is_recent = |sample: (u64, u32)| sample.0 > now.saturating_sub(SAMPLE_LIFETIME_SECS);
    reveal(Seq::filter);
    assert(all.drop_last() =~= before);
    assert(is_recent(all.last()));
    let kept = recent(all, now);
    assert(kept == before.filter(is_recent).push(all.last()));
    if forall|i: int| 0 <= i < before.len() ==> (#[trigger] before[i]).0 + 60 > now {
        lemma_all_are_kept(before, is_recent);
        assert(kept == all);
        if before.len() >= 100 {
            assert(all.skip(all.len() - 100) =~= before.skip(before.len() - 99).push(
                (now, latency_ms),
            ));
        }
    }
    if forall|i: int| 0 <= i < before.len() ==> (#[trigger] before[i]).0 + 60 <= now {
        lemma_none_is_kept(before, is_recent);
        assert(kept =~= seq![(now, latency_ms)]);
    }
}

proof fn lemma_all_are_kept(samples: Seq<(u64, u32)>, keep: spec_fn((u64, u32)) -> bool)
    requires
        forall|i: int| 0 <= i < samples.len() ==> keep(#[trigger] samples[i]),
    ensures
        samples.filter(keep) == samples,
    decreases samples.len(),
{
    reveal(Seq::filter);
    if samples.len() > 0 {
        let shorter = samples.drop_last();
        assert forall|i: int| 0 <= i < shorter.len() implies keep(#[trigger] shorter[i]) by {
            assert(keep(samples[i]));
        }
        lemma_all_are_kept(shorter, keep);
        assert(keep(samples[samples.len() - 1]));
        assert(shorter.push(samples.last()) =~= samples);
    } else {
        assert(samples.filter(keep) =~= samples);
    }
}

proof fn lemma_none_is_kept(samples: Seq<(u64, u32)>, keep: spec_fn((u64, u32)) -> bool)
    requires
        forall|i: int| 0 <= i < samples.len() ==> !keep(#[trigger] samples[i]),
    ensures
        samples.filter(keep) == Seq::<(u64, u32)>::empty(),
    decreases samples.len(),
{
    reveal(Seq::filter);
    if samples.len() > 0 {
        let shorter = samples.drop_last();
        assert forall|i: int| 0 <= i < shorter.len() implies !keep(#[trigger] shorter[i]) by {
            assert(!keep(samples[i]));
        }
        lemma_none_is_kept(shorter, keep);
        assert(!keep(samples[samples.len() - 1]));
    }
}

/// Up to ten thousand packets are counted, and with one more both counts are halved. The rate of
/// lost packets is so many in a thousand of those counted, rounded down.
pub proof fn law_losses_are_counted(quality: Quality, lost: bool)
    requires
        quality.wf(),
    ensures
        ({
            let after = quality.with_packet(lost);
            let more = if lost {
                1int
            } else {
                0int
            };
            &&& after.samples == quality.samples
            &&& quality.total < 10_000 ==> after.total == quality.total + 1 && after.lost
                == quality.lost + more
            &&& quality.total == 10_000 ==> after.total == 5_000 && after.lost == (quality.lost
                + more) / 2
        }),
        quality.total == 0 ==> quality.loss_rate() == 0,
        quality.total > 0 ==> quality.loss_rate() * quality.total <= 1000 * quality.lost < (
        quality.loss_rate() + 1) * quality.total,
{
    if quality.total > 0 {
        let all = quality.lost * 1000;
        let total = quality.total as int;
        assert(all / total * total <= all < (all / total + 1) * total) by (nonlinear_arith)
            requires
                total > 0,
        ;
    }
}

/// The average latency is the sum of the samples divided by their number, rounded down, and the
/// jitter the sum of the differences between neighbours divided by their number. Each sample adds
/// itself to the one sum, and how much it differs from the one before to the other.
pub proof fn law_averages_of_the_samples(quality: Quality, at: u64, latency: u32)
    requires
        quality.samples.len() > 0,
        latency < 0x8000_0000,
        quality.samples.last().1 < 0x8000_0000,
    ensures
        ({
            let n = quality.samples.len() as int;
            let longer = quality.samples.push((at, latency));
            let last = quality.samples.last().1;
            &&& quality.average_latency() * n <= total_latency(quality.samples) < (
            quality.average_latency() + 1) * n
            &&& total_latency(longer) == total_latency(quality.samples) + latency
            &&& total_latency(seq![(at, latency)]) == latency
            &&& total_difference(seq![(at, latency)]) == 0
            &&& last <= latency ==> total_difference(longer) == total_difference(quality.samples)
                + (latency - last)
            &&& last > latency ==> total_difference(longer) == total_difference(quality.samples) + (
            last - latency)
            &&& n >= 2 ==> quality.jitter() * (n - 1) <= total_difference(quality.samples) < (
            quality.jitter() + 1) * (n - 1)
            &&& n == 1 ==> quality.jitter() == 0
        }),
{
    let n = quality.samples.len() as int;
    let sum = total_latency(quality.samples);
    let longer = quality.samples.push((at, latency));
    assert(longer.drop_last() =~= quality.samples);
    assert(sum / n * n <= sum < (sum / n + 1) * n) by (nonlinear_arith)
        requires
            n > 0,
    ;
    let one = seq![(at, latency)];
    assert(one.drop_last() =~= Seq::<(u64, u32)>::empty());
    assert(total_latency(one.drop_last()) == 0);
    if n >= 2 {
        let differences = total_difference(quality.samples);
        let m = n - 1;
        assert(differences / m * m <= differences < (differences / m + 1) * m) by (nonlinear_arith)
            requires
                m > 0,
        ;
    }
}

/// Without samples the averages are 0, and without packets so is the loss rate.
pub proof fn law_nothing_recorded_counts_as_zero(quality: Quality)
    ensures
        quality.samples.len() == 0 ==> quality.average_latency() == 0 && quality.jitter() == 0,
        quality.total == 0 ==> quality.loss_rate() == 0,
{
}

/// Latencies differ as signed 32-bit numbers do: by as much as they are apart if both are below
/// 2^31 or neither is, and the other way round the circle if only one of them is.
pub proof fn law_latencies_differ_as_signed_numbers(a: u32, b: u32)
    ensures
        difference(a, b) == difference(b, a),
        (a < 0x8000_0000) == (b < 0x8000_0000) && a <= b ==> difference(a, b) == b - a,
        a < 0x8000_0000 && b >= 0x8000_0000 ==> difference(a, b) == a + (0x1_0000_0000 - b),
{
}

} // verus!
