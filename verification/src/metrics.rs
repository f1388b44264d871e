//! Counters of the server, their batches, and their export to Prometheus.

use vstd::prelude::*;

use crate::clock::MonotonicClock;

verus! {

/// Packets after which a batch is added to the counters.
pub const FLUSH_INTERVAL: u16 = 64;

/// Counters of the server. They start over when they have reached their largest value.
#[derive(Debug, Clone, Copy, PartialEq, Eq, Structural)]
pub struct Counters {
    pub v3_packets_received: u64,
    pub v3_packets_sent: u64,
    pub v3_bytes_received: u64,
    pub v3_bytes_sent: u64,
    pub v3_active_clients: usize,
    pub v3_ping_requests: u64,
    pub v2_packets_received: u64,
    pub v2_packets_sent: u64,
    pub v2_bytes_received: u64,
    pub v2_bytes_sent: u64,
    pub v2_active_clients: usize,
    pub v2_http_requests: u64,
    pub v2_ping_requests: u64,
    pub p2p_requests: u64,
    pub p2p_responses: u64,
    pub rate_limit_hits: u64,
    pub dropped_packets: u64,
    pub dropped_connections: u64,
    pub invalid_packets: u64,
}

impl Counters {
    /// Nothing has been counted.
    pub open spec fn zero() -> Counters {
        Counters {
            v3_packets_received: 0,
            v3_packets_sent: 0,
            v3_bytes_received: 0,
            v3_bytes_sent: 0,
            v3_active_clients: 0,
            v3_ping_requests: 0,
            v2_packets_received: 0,
            v2_packets_sent: 0,
            v2_bytes_received: 0,
            v2_bytes_sent: 0,
            v2_active_clients: 0,
            v2_http_requests: 0,
            v2_ping_requests: 0,
            p2p_requests: 0,
            p2p_responses: 0,
            rate_limit_hits: 0,
            dropped_packets: 0,
            dropped_connections: 0,
            invalid_packets: 0,
        }
    }

    fn new() -> (counters: Self)
        ensures
            counters == Counters::zero(),
    {
        Counters {
            v3_packets_received: 0,
            v3_packets_sent: 0,
            v3_bytes_received: 0,
            v3_bytes_sent: 0,
            v3_active_clients: 0,
            v3_ping_requests: 0,
            v2_packets_received: 0,
            v2_packets_sent: 0,
            v2_bytes_received: 0,
            v2_bytes_sent: 0,
            v2_active_clients: 0,
            v2_http_requests: 0,
            v2_ping_requests: 0,
            p2p_requests: 0,
            p2p_responses: 0,
            rate_limit_hits: 0,
            dropped_packets: 0,
            dropped_connections: 0,
            invalid_packets: 0,
        }
    }
}

/// What a worker has counted since it last added to the counters.
#[derive(Debug, Clone, Copy, PartialEq, Eq, Structural)]
pub struct Batch {
    pub v3_packets_rx: u32,
    pub v3_packets_tx: u32,
    pub v3_bytes_rx: u64,
    pub v3_bytes_tx: u64,
    pub v2_packets_rx: u32,
    pub v2_packets_tx: u32,
    pub v2_bytes_rx: u64,
    pub v2_bytes_tx: u64,
    /// Packets that the worker has seen.
    pub counter: u16,
}

impl Batch {
    pub open spec fn empty(counter: u16) -> Batch {
        Batch {
            v3_packets_rx: 0,
            v3_packets_tx: 0,
            v3_bytes_rx: 0,
            v3_bytes_tx: 0,
            v2_packets_rx: 0,
            v2_packets_tx: 0,
            v2_bytes_rx: 0,
            v2_bytes_tx: 0,
            counter,
        }
    }

    pub open spec fn with_v3_rx(self, bytes: u64) -> Batch {
        Batch {
            v3_packets_rx: self.v3_packets_rx.wrapping_add(1),
            v3_bytes_rx: self.v3_bytes_rx.wrapping_add(bytes),
            ..self
        }
    }

    pub open spec fn with_v3_tx(self, bytes: u64) -> Batch {
        Batch {
            v3_packets_tx: self.v3_packets_tx.wrapping_add(1),
            v3_bytes_tx: self.v3_bytes_tx.wrapping_add(bytes),
            ..self
        }
    }

    pub open spec fn with_v2_rx(self, bytes: u64) -> Batch {
        Batch {
            v2_packets_rx: self.v2_packets_rx.wrapping_add(1),
            v2_bytes_rx: self.v2_bytes_rx.wrapping_add(bytes),
            ..self
        }
    }

    pub open spec fn with_v2_tx(self, bytes: u64) -> Batch {
        Batch {
            v2_packets_tx: self.v2_packets_tx.wrapping_add(1),
            v2_bytes_tx: self.v2_bytes_tx.wrapping_add(bytes),
            ..self
        }
    }

    /// The counters with the batch added to them.
    pub open spec fn added_to(self, counters: Counters) -> Counters {
        Counters {
            v3_packets_received: counters.v3_packets_received.wrapping_add(
                self.v3_packets_rx as u64,
            ),
            v3_packets_sent: counters.v3_packets_sent.wrapping_add(self.v3_packets_tx as u64),
            v3_bytes_received: counters.v3_bytes_received.wrapping_add(self.v3_bytes_rx),
            v3_bytes_sent: counters.v3_bytes_sent.wrapping_add(self.v3_bytes_tx),
            v2_packets_received: counters.v2_packets_received.wrapping_add(
                self.v2_packets_rx as u64,
            ),
            v2_packets_sent: counters.v2_packets_sent.wrapping_add(self.v2_packets_tx as u64),
            v2_bytes_received: counters.v2_bytes_received.wrapping_add(self.v2_bytes_rx),
            v2_bytes_sent: counters.v2_bytes_sent.wrapping_add(self.v2_bytes_tx),
            ..counters
        }
    }
}

/// Per-worker counts that are added to the counters every `FLUSH_INTERVAL` packets.
#[derive(Clone, Copy)]
pub struct LocalMetricsBatch {
    batch: Batch,
}

impl View for LocalMetricsBatch {
    type V = Batch;

    closed spec fn view(&self) -> Batch {
        self.batch
    }
}

impl LocalMetricsBatch {
    /// Nothing has been counted.
    pub fn new() -> (batch: Self)
        ensures
            batch@ == Batch::empty(0),
    {
        LocalMetricsBatch {
            batch: Batch {
                v3_packets_rx: 0,
                v3_packets_tx: 0,
                v3_bytes_rx: 0,
                v3_bytes_tx: 0,
                v2_packets_rx: 0,
                v2_packets_tx: 0,
                v2_bytes_rx: 0,
                v2_bytes_tx: 0,
                counter: 0,
            },
        }
    }

    /// Counts a packet received by tunnel V3.
    pub fn record_v3_rx(&mut self, bytes: u64)
        ensures
            final(self)@ == old(self)@.with_v3_rx(bytes),
    {
        self.batch.v3_packets_rx = self.batch.v3_packets_rx.wrapping_add(1);
        self.batch.v3_bytes_rx = self.batch.v3_bytes_rx.wrapping_add(bytes);
    }

    /// Counts a packet sent by tunnel V3.
    pub fn record_v3_tx(&mut self, bytes: u64)
        ensures
            final(self)@ == old(self)@.with_v3_tx(bytes),
    {
        self.batch.v3_packets_tx = self.batch.v3_packets_tx.wrapping_add(1);
        self.batch.v3_bytes_tx = self.batch.v3_bytes_tx.wrapping_add(bytes);
    }

    /// Counts a packet received by tunnel V2.
    pub fn record_v2_rx(&mut self, bytes: u64)
        ensures
            final(self)@ == old(self)@.with_v2_rx(bytes),
    {
        self.batch.v2_packets_rx = self.batch.v2_packets_rx.wrapping_add(1);
        self.batch.v2_bytes_rx = self.batch.v2_bytes_rx.wrapping_add(bytes);
    }

    /// Counts a packet sent by tunnel V2.
    pub fn record_v2_tx(&mut self, bytes: u64)
        ensures
            final(self)@ == old(self)@.with_v2_tx(bytes),
    {
        self.batch.v2_packets_tx = self.batch.v2_packets_tx.wrapping_add(1);
        self.batch.v2_bytes_tx = self.batch.v2_bytes_tx.wrapping_add(bytes);
    }

    /// Notes that a packet has been handled, and adds the batch to the counters if it is time.
    pub fn maybe_flush(&mut self, metrics: &mut Metrics)
        ensures
            ({
                let counter = old(self)@.counter.wrapping_add(1);
                if counter % FLUSH_INTERVAL == 0 {
                    &&& *final(metrics) == old(metrics).with_counters(
                        old(self)@.added_to(old(metrics).counters),
                    )
                    &&& final(self)@ == Batch::empty(counter)
                } else {
                    &&& *final(metrics) == *old(metrics)
                    &&& final(self)@ == (Batch { counter, ..old(self)@ })
                }
            }),
    {
        self.batch.counter = self.batch.counter.wrapping_add(1);
        if self.batch.counter % FLUSH_INTERVAL == 0 {
            self.flush(metrics);
        }
    }

    /// Adds the batch to the counters and empties it.
    pub fn flush(&mut self, metrics: &mut Metrics)
        ensures
            *final(metrics) == old(metrics).with_counters(
                old(self)@.added_to(old(metrics).counters),
            ),
            final(self)@ == Batch::empty(old(self)@.counter),
    {
        let batch = self.batch;
        let counters = metrics.counters;
        metrics.counters = Counters {
            v3_packets_received: counters.v3_packets_received.wrapping_add(
                batch.v3_packets_rx as u64,
            ),
            v3_packets_sent: counters.v3_packets_sent.wrapping_add(batch.v3_packets_tx as u64),
            v3_bytes_received: counters.v3_bytes_received.wrapping_add(batch.v3_bytes_rx),
            v3_bytes_sent: counters.v3_bytes_sent.wrapping_add(batch.v3_bytes_tx),
            v2_packets_received: counters.v2_packets_received.wrapping_add(
                batch.v2_packets_rx as u64,
            ),
            v2_packets_sent: counters.v2_packets_sent.wrapping_add(batch.v2_packets_tx as u64),
            v2_bytes_received: counters.v2_bytes_received.wrapping_add(batch.v2_bytes_rx),
            v2_bytes_sent: counters.v2_bytes_sent.wrapping_add(batch.v2_bytes_tx),
            ..counters
        };
        self.batch = Batch {
            v3_packets_rx: 0,
            v3_packets_tx: 0,
            v3_bytes_rx: 0,
            v3_bytes_tx: 0,
            v2_packets_rx: 0,
            v2_packets_tx: 0,
            v2_bytes_rx: 0,
            v2_bytes_tx: 0,
            counter: batch.counter,
        };
    }
}

/// Nothing that was counted is lost or counted twice when a batch is added to the counters: what
/// the counters show of the batch before is what they show of the empty batch afterwards.
pub proof fn law_flushing_loses_nothing(batch: Batch, counters: Counters)
    ensures
        Batch::empty(batch.counter).added_to(batch.added_to(counters)) == batch.added_to(counters),
{
}

/// Whether a text can name a metric: letters, digits, underscores and colons, and no digit first.
pub open spec fn is_metric_name(name: Seq<char>) -> bool {
    &&& name.len() > 0
    &&& !('0' <= name[0] <= '9')
    &&& forall|i: int| 0 <= i < name.len() ==> is_metric_char(#[trigger] name[i])
}

pub open spec fn is_metric_char(c: char) -> bool {
    'a' <= c <= 'z' || 'A' <= c <= 'Z' || '0' <= c <= '9' || c == '_' || c == ':'
}

/// What an exported counter shows.
pub uninterp spec fn counter_value(counter: ExportedCounter) -> u64;

/// The name and the help text that a counter is exported with.
pub uninterp spec fn counter_label(counter: ExportedCounter) -> (Seq<char>, Seq<char>);

/// The name and the help text that a gauge is exported with.
pub uninterp spec fn gauge_label(gauge: ExportedGauge) -> (Seq<char>, Seq<char>);

/// What an exported gauge shows.
pub uninterp spec fn gauge_value(gauge: ExportedGauge) -> i64;

/// A `prometheus::IntCounter`, kept opaque.
#[verifier::external_body]
pub struct ExportedCounter {
    counter: prometheus::IntCounter,
}

/// A `prometheus::IntGauge`, kept opaque.
#[verifier::external_body]
pub struct ExportedGauge {
    gauge: prometheus::IntGauge,
}

impl ExportedCounter {
    /// `prometheus::IntCounter::new`: a new counter has the given name and help text and shows 0.
    #[verifier::external_body]
    fn new(name: &str, help: &str) -> (counter: Self)
        requires
            is_metric_name(name@),
            help@.len() > 0,
        ensures
            counter_value(counter) == 0,
            (counter_label(counter) == (name@, help@)),
    {
        ExportedCounter { counter: prometheus::IntCounter::new(name, help).unwrap() }
    }

    /// `prometheus::IntCounter::inc_by`: the counter shows `n` more, and starts over after its
    /// largest value.
    #[verifier::external_body]
    fn inc_by(&mut self, n: u64)
        ensures
            counter_value(*final(self)) == counter_value(*old(self)).wrapping_add(n),
            counter_label(*final(self)) == counter_label(*old(self)),
    {
        self.counter.inc_by(n)
    }

    /// `prometheus::IntCounter::get`: what the counter shows.
    #[verifier::external_body]
    pub(crate) fn get(&self) -> (value: u64)
        ensures
            value == counter_value(*self),
    {
        self.counter.get()
    }

    /// `prometheus::register` of a counter: whether the registry of the process has accepted it.
    /// That depends on what was registered before and is not stated.
    #[verifier::external_body]
    fn register(&self) -> bool {
        prometheus::register(Box::new(self.counter.clone())).is_ok()
    }
}

impl ExportedGauge {
    /// `prometheus::IntGauge::new`: a new gauge has the given name and help text and shows 0.
    #[verifier::external_body]
    fn new(name: &str, help: &str) -> (gauge: Self)
        requires
            is_metric_name(name@),
            help@.len() > 0,
        ensures
            gauge_value(gauge) == 0,
            (gauge_label(gauge) == (name@, help@)),
    {
        ExportedGauge { gauge: prometheus::IntGauge::new(name, help).unwrap() }
    }

    /// `prometheus::IntGauge::set`: the gauge shows `value`.
    #[verifier::external_body]
    fn set(&mut self, value: i64)
        ensures
            gauge_value(*final(self)) == value,
            gauge_label(*final(self)) == gauge_label(*old(self)),
    {
        self.gauge.set(value)
    }

    /// `prometheus::IntGauge::get`: what the gauge shows.
    #[verifier::external_body]
    pub(crate) fn get(&self) -> (value: i64)
        ensures
            value == gauge_value(*self),
    {
        self.gauge.get()
    }

    /// `prometheus::register` of a gauge: whether the registry of the process has accepted it.
    /// That depends on what was registered before and is not stated.
    #[verifier::external_body]
    fn register(&self) -> bool {
        prometheus::register(Box::new(self.gauge.clone())).is_ok()
    }
}

/// A counter that is exported, and the value that it was last exported with.
pub struct TrackedCounter {
    exported: ExportedCounter,
    last: u64,
}

/// What an exported counter shows, and the value that it was last exported with.
pub struct Track {
    pub shown: u64,
    pub last: u64,
}

impl Track {
    /// Nothing has been exported.
    pub open spec fn zero() -> Track {
        Track { shown: 0, last: 0 }
    }

    /// The counter is exported with the value `current`: it shows as much more as it has grown.
    pub open spec fn exported(self, current: u64) -> Track {
        Track {
            shown: self.shown.wrapping_add(current.saturating_sub(self.last)),
            last: current,
        }
    }
}

impl View for TrackedCounter {
    type V = Track;

    closed spec fn view(&self) -> Track {
        Track { shown: counter_value(self.exported), last: self.last }
    }
}

impl TrackedCounter {
    /// The name and the help text of the exported counter.
    pub closed spec fn label(&self) -> (Seq<char>, Seq<char>) {
        counter_label(self.exported)
    }

    fn new(name: &str, help: &str) -> (counter: Self)
        requires
            is_metric_name(name@),
            help@.len() > 0,
        ensures
            counter@ == Track::zero(),
            counter.label() == (name@, help@),
    {
        TrackedCounter { exported: ExportedCounter::new(name, help), last: 0 }
    }

    fn export(&mut self, current: u64)
        ensures
            final(self)@ == old(self)@.exported(current),
            final(self).label() == old(self).label(),
    {
        self.exported.inc_by(current.saturating_sub(self.last));
        self.last = current;
    }

    fn register(&self) -> bool {
        self.exported.register()
    }

    /// What the exported counter shows.
    pub fn shown(&self) -> (value: u64)
        ensures
            value == self@.shown,
    {
        self.exported.get()
    }
}

/// What is exported.
#[verifier::ext_equal]
pub struct Exported {
    pub v3_packets_received: Track,
    pub v3_packets_sent: Track,
    pub v3_bytes_received: Track,
    pub v3_bytes_sent: Track,
    pub v3_active_clients: i64,
    pub v2_packets_received: Track,
    pub v2_packets_sent: Track,
    pub v2_active_clients: i64,
    pub v2_http_requests: Track,
    pub rate_limit_hits: Track,
    pub dropped_packets: Track,
    pub dropped_connections: Track,
    pub uptime_seconds: i64,
}

impl Exported {
    /// Nothing has been exported.
    pub open spec fn zero() -> Exported {
        Exported {
            v3_packets_received: Track::zero(),
            v3_packets_sent: Track::zero(),
            v3_bytes_received: Track::zero(),
            v3_bytes_sent: Track::zero(),
            v3_active_clients: 0,
            v2_packets_received: Track::zero(),
            v2_packets_sent: Track::zero(),
            v2_active_clients: 0,
            v2_http_requests: Track::zero(),
            rate_limit_hits: Track::zero(),
            dropped_packets: Track::zero(),
            dropped_connections: Track::zero(),
            uptime_seconds: 0,
        }
    }

    /// The counters are exported, with the server up for so many seconds.
    pub open spec fn updated(self, counters: Counters, uptime_seconds: u64) -> Exported {
        Exported {
            v3_packets_received: self.v3_packets_received.exported(counters.v3_packets_received),
            v3_packets_sent: self.v3_packets_sent.exported(counters.v3_packets_sent),
            v3_bytes_received: self.v3_bytes_received.exported(counters.v3_bytes_received),
            v3_bytes_sent: self.v3_bytes_sent.exported(counters.v3_bytes_sent),
            v3_active_clients: counters.v3_active_clients as i64,
            v2_packets_received: self.v2_packets_received.exported(counters.v2_packets_received),
            v2_packets_sent: self.v2_packets_sent.exported(counters.v2_packets_sent),
            v2_active_clients: counters.v2_active_clients as i64,
            v2_http_requests: self.v2_http_requests.exported(counters.v2_http_requests),
            rate_limit_hits: self.rate_limit_hits.exported(counters.rate_limit_hits),
            dropped_packets: self.dropped_packets.exported(counters.dropped_packets),
            dropped_connections: self.dropped_connections.exported(counters.dropped_connections),
            uptime_seconds: uptime_seconds as i64,
        }
    }
}

/// The counters and gauges that are exported.
pub struct Exporter {
    v3_packets_received: TrackedCounter,
    v3_packets_sent: TrackedCounter,
    v3_bytes_received: TrackedCounter,
    v3_bytes_sent: TrackedCounter,
    v3_active_clients: ExportedGauge,
    v2_packets_received: TrackedCounter,
    v2_packets_sent: TrackedCounter,
    v2_active_clients: ExportedGauge,
    v2_http_requests: TrackedCounter,
    rate_limit_hits: TrackedCounter,
    dropped_packets: TrackedCounter,
    dropped_connections: TrackedCounter,
    uptime_seconds: ExportedGauge,
}

impl View for Exporter {
    type V = Exported;

    closed spec fn view(&self) -> Exported {
        Exported {
            v3_packets_received: self.v3_packets_received@,
            v3_packets_sent: self.v3_packets_sent@,
            v3_bytes_received: self.v3_bytes_received@,
            v3_bytes_sent: self.v3_bytes_sent@,
            v3_active_clients: gauge_value(self.v3_active_clients),
            v2_packets_received: self.v2_packets_received@,
            v2_packets_sent: self.v2_packets_sent@,
            v2_active_clients: gauge_value(self.v2_active_clients),
            v2_http_requests: self.v2_http_requests@,
            rate_limit_hits: self.rate_limit_hits@,
            dropped_packets: self.dropped_packets@,
            dropped_connections: self.dropped_connections@,
            uptime_seconds: gauge_value(self.uptime_seconds),
        }
    }
}

/// The names and descriptions of everything that is exported are accepted.
proof fn lemma_metric_names()
    ensures
        is_metric_name("cncnet_v3_packets_received_total"@),
        is_metric_name("cncnet_v3_packets_sent_total"@),
        is_metric_name("cncnet_v3_bytes_received_total"@),
        is_metric_name("cncnet_v3_bytes_sent_total"@),
        is_metric_name("cncnet_v3_active_clients"@),
        is_metric_name("cncnet_v2_packets_received_total"@),
        is_metric_name("cncnet_v2_packets_sent_total"@),
        is_metric_name("cncnet_v2_active_clients"@),
        is_metric_name("cncnet_v2_http_requests_total"@),
        is_metric_name("cncnet_rate_limit_hits_total"@),
        is_metric_name("cncnet_dropped_packets_total"@),
        is_metric_name("cncnet_dropped_connections_total"@),
        is_metric_name("cncnet_uptime_seconds"@),
{
    reveal_strlit("cncnet_v3_packets_received_total");
    reveal_strlit("cncnet_v3_packets_sent_total");
    reveal_strlit("cncnet_v3_bytes_received_total");
    reveal_strlit("cncnet_v3_bytes_sent_total");
    reveal_strlit("cncnet_v3_active_clients");
    reveal_strlit("cncnet_v2_packets_received_total");
    reveal_strlit("cncnet_v2_packets_sent_total");
    reveal_strlit("cncnet_v2_active_clients");
    reveal_strlit("cncnet_v2_http_requests_total");
    reveal_strlit("cncnet_rate_limit_hits_total");
    reveal_strlit("cncnet_dropped_packets_total");
    reveal_strlit("cncnet_dropped_connections_total");
    reveal_strlit("cncnet_uptime_seconds");
}

/// The names and help texts under which the counters are exported.
pub struct Labels {
    pub v3_packets_received: (Seq<char>, Seq<char>),
    pub v3_packets_sent: (Seq<char>, Seq<char>),
    pub v3_bytes_received: (Seq<char>, Seq<char>),
    pub v3_bytes_sent: (Seq<char>, Seq<char>),
    pub v3_active_clients: (Seq<char>, Seq<char>),
    pub v2_packets_received: (Seq<char>, Seq<char>),
    pub v2_packets_sent: (Seq<char>, Seq<char>),
    pub v2_active_clients: (Seq<char>, Seq<char>),
    pub v2_http_requests: (Seq<char>, Seq<char>),
    pub rate_limit_hits: (Seq<char>, Seq<char>),
    pub dropped_packets: (Seq<char>, Seq<char>),
    pub dropped_connections: (Seq<char>, Seq<char>),
    pub uptime_seconds: (Seq<char>, Seq<char>),
}

impl Labels {
    /// The names and help texts of the server.
    pub open spec fn of_the_server() -> Labels {
        Labels {
            v3_packets_received: ("cncnet_v3_packets_received_total"@, "Total packets received by Tunnel V3"@),
            v3_packets_sent: ("cncnet_v3_packets_sent_total"@, "Total packets sent by Tunnel V3"@),
            v3_bytes_received: ("cncnet_v3_bytes_received_total"@, "Total bytes received by Tunnel V3"@),
            v3_bytes_sent: ("cncnet_v3_bytes_sent_total"@, "Total bytes sent by Tunnel V3"@),
            v3_active_clients: ("cncnet_v3_active_clients"@, "Active clients in Tunnel V3"@),
            v2_packets_received: ("cncnet_v2_packets_received_total"@, "Total packets received by Tunnel V2"@),
            v2_packets_sent: ("cncnet_v2_packets_sent_total"@, "Total packets sent by Tunnel V2"@),
            v2_active_clients: ("cncnet_v2_active_clients"@, "Active clients in Tunnel V2"@),
            v2_http_requests: ("cncnet_v2_http_requests_total"@, "Total HTTP requests to Tunnel V2"@),
            rate_limit_hits: ("cncnet_rate_limit_hits_total"@, "Total rate limit hits"@),
            dropped_packets: ("cncnet_dropped_packets_total"@, "Total dropped packets"@),
            dropped_connections: ("cncnet_dropped_connections_total"@, "Total dropped connections"@),
            uptime_seconds: ("cncnet_uptime_seconds"@, "Server uptime in seconds"@),
        }
    }
}

/// How many of the answers of the registry are refusals.
pub open spec fn refusals(answers: Seq<bool>) -> nat
    decreases answers.len(),
{
    if answers.len() == 0 {
        0
    } else {
        refusals(answers.drop_last()) + if answers.last() {
            0nat
        } else {
            1nat
        }
    }
}

/// Counts the refusals among the answers of the registry.
pub fn count_refusals(answers: &Vec<bool>) -> (refused: usize)
    ensures
        refused == refusals(answers@),
{
    let mut refused: usize = 0;
    let mut i: usize = 0;
    while i < answers.len()
        invariant
            i <= answers@.len(),
            refused <= i,
            refused == refusals(answers@.take(i as int)),
        decreases answers@.len() - i,
    {
        if !answers[i] {
            refused = refused + 1;
        }
        i = i + 1;
        assert(answers@.take(i as int).drop_last() =~= answers@.take(i - 1));
    }
    assert(answers@.take(i as int) =~= answers@);
    refused
}

/// So many refusals are possible among thirteen answers of the registry.
pub open spec fn is_refusal_count(refused: usize) -> bool {
    exists|answers: Seq<bool>| answers.len() == 13 && refused == #[trigger] refusals(answers)
}

impl Exporter {
    /// The names and help texts under which the counters are exported.
    pub closed spec fn labels(&self) -> Labels {
        Labels {
            v3_packets_received: self.v3_packets_received.label(),
            v3_packets_sent: self.v3_packets_sent.label(),
            v3_bytes_received: self.v3_bytes_received.label(),
            v3_bytes_sent: self.v3_bytes_sent.label(),
            v3_active_clients: gauge_label(self.v3_active_clients),
            v2_packets_received: self.v2_packets_received.label(),
            v2_packets_sent: self.v2_packets_sent.label(),
            v2_active_clients: gauge_label(self.v2_active_clients),
            v2_http_requests: self.v2_http_requests.label(),
            rate_limit_hits: self.rate_limit_hits.label(),
            dropped_packets: self.dropped_packets.label(),
            dropped_connections: self.dropped_connections.label(),
            uptime_seconds: gauge_label(self.uptime_seconds),
        }
    }

    /// Nothing has been exported. Comes back with the number of counters and gauges that the
    /// registry of the process has not accepted, too.
    fn new() -> (result: (Self, usize))
        ensures
            result.0@ == Exported::zero(),
            result.0.labels() == Labels::of_the_server(),
            is_refusal_count(result.1),
    {
        proof {
            lemma_metric_names();
            reveal_strlit("Total packets received by Tunnel V3");
            reveal_strlit("Total packets sent by Tunnel V3");
            reveal_strlit("Total bytes received by Tunnel V3");
            reveal_strlit("Total bytes sent by Tunnel V3");
            reveal_strlit("Active clients in Tunnel V3");
            reveal_strlit("Total packets received by Tunnel V2");
            reveal_strlit("Total packets sent by Tunnel V2");
            reveal_strlit("Active clients in Tunnel V2");
            reveal_strlit("Total HTTP requests to Tunnel V2");
            reveal_strlit("Total rate limit hits");
            reveal_strlit("Total dropped packets");
            reveal_strlit("Total dropped connections");
            reveal_strlit("Server uptime in seconds");
        }
        let exporter = Exporter {
            v3_packets_received: TrackedCounter::new(
                "cncnet_v3_packets_received_total",
                "Total packets received by Tunnel V3",
            ),
            v3_packets_sent: TrackedCounter::new(
                "cncnet_v3_packets_sent_total",
                "Total packets sent by Tunnel V3",
            ),
            v3_bytes_received: TrackedCounter::new(
                "cncnet_v3_bytes_received_total",
                "Total bytes received by Tunnel V3",
            ),
            v3_bytes_sent: TrackedCounter::new(
                "cncnet_v3_bytes_sent_total",
                "Total bytes sent by Tunnel V3",
            ),
            v3_active_clients: ExportedGauge::new(
                "cncnet_v3_active_clients",
                "Active clients in Tunnel V3",
            ),
            v2_packets_received: TrackedCounter::new(
                "cncnet_v2_packets_received_total",
                "Total packets received by Tunnel V2",
            ),
            v2_packets_sent: TrackedCounter::new(
                "cncnet_v2_packets_sent_total",
                "Total packets sent by Tunnel V2",
            ),
            v2_active_clients: ExportedGauge::new(
                "cncnet_v2_active_clients",
                "Active clients in Tunnel V2",
            ),
            v2_http_requests: TrackedCounter::new(
                "cncnet_v2_http_requests_total",
                "Total HTTP requests to Tunnel V2",
            ),
            rate_limit_hits: TrackedCounter::new(
                "cncnet_rate_limit_hits_total",
                "Total rate limit hits",
            ),
            dropped_packets: TrackedCounter::new(
                "cncnet_dropped_packets_total",
                "Total dropped packets",
            ),
            dropped_connections: TrackedCounter::new(
                "cncnet_dropped_connections_total",
                "Total dropped connections",
            ),
            uptime_seconds: ExportedGauge::new("cncnet_uptime_seconds", "Server uptime in seconds"),
        };
        let mut accepted: Vec<bool> = Vec::new();
        accepted.push(exporter.v3_packets_received.register());
        accepted.push(exporter.v3_packets_sent.register());
        accepted.push(exporter.v3_bytes_received.register());
        accepted.push(exporter.v3_bytes_sent.register());
        accepted.push(exporter.v3_active_clients.register());
        accepted.push(exporter.v2_packets_received.register());
        accepted.push(exporter.v2_packets_sent.register());
        accepted.push(exporter.v2_active_clients.register());
        accepted.push(exporter.v2_http_requests.register());
        accepted.push(exporter.rate_limit_hits.register());
        accepted.push(exporter.dropped_packets.register());
        accepted.push(exporter.dropped_connections.register());
        accepted.push(exporter.uptime_seconds.register());
        let refused: usize = count_refusals(&accepted);
        (exporter, refused)
    }

    /// Exports the counters, with the server up for so many seconds.
    fn update(&mut self, counters: &Counters, uptime_seconds: u64)
        ensures
            final(self)@ == old(self)@.updated(*counters, uptime_seconds),
            final(self).labels() == old(self).labels(),
    {
        self.v3_packets_received.export(counters.v3_packets_received);
        self.v3_packets_sent.export(counters.v3_packets_sent);
        self.v3_bytes_received.export(counters.v3_bytes_received);
        self.v3_bytes_sent.export(counters.v3_bytes_sent);
        self.v3_active_clients.set(counters.v3_active_clients as i64);
        self.v2_packets_received.export(counters.v2_packets_received);
        self.v2_packets_sent.export(counters.v2_packets_sent);
        self.v2_active_clients.set(counters.v2_active_clients as i64);
        self.v2_http_requests.export(counters.v2_http_requests);
        self.rate_limit_hits.export(counters.rate_limit_hits);
        self.dropped_packets.export(counters.dropped_packets);
        self.dropped_connections.export(counters.dropped_connections);
        self.uptime_seconds.set(uptime_seconds as i64);
    }

    /// What the exported gauge of connected V3 clients shows.
    pub fn shown_v3_clients(&self) -> (value: i64)
        ensures
            value == self@.v3_active_clients,
    {
        self.v3_active_clients.get()
    }

    /// What the exported counter of packets received by tunnel V3 shows.
    pub fn shown_v3_packets_received(&self) -> (value: u64)
        ensures
            value == self@.v3_packets_received.shown,
    {
        self.v3_packets_received.shown()
    }
}

/// `prometheus::TextEncoder::encode_to_string` of what `prometheus::gather` collects: everything
/// that is registered, in the text format. It depends on all that the process has registered, and
/// nothing is claimed of the text.
#[verifier::external_body]
fn gathered_text() -> String {
    prometheus::TextEncoder::new().encode_to_string(&prometheus::gather()).unwrap_or_default()
}

/// The counters of the server and their export.
pub struct Metrics {
    pub counters: Counters,
    pub exporter: Exporter,
    /// How many counters and gauges the registry of the process has not accepted.
    pub refused_registrations: usize,
    pub start_time: MonotonicClock,
}

impl Metrics {
    /// The same metrics with other counters.
    pub open spec fn with_counters(self, counters: Counters) -> Metrics {
        Metrics { counters, ..self }
    }

    /// Nothing has been counted or exported.
    pub fn new() -> (metrics: Self)
        ensures
            metrics.counters == Counters::zero(),
            metrics.exporter@ == Exported::zero(),
            metrics.exporter.labels() == Labels::of_the_server(),
            is_refusal_count(metrics.refused_registrations),
    {
        let (exporter, refused_registrations) = Exporter::new();
        Metrics {
            counters: Counters::new(),
            exporter,
            refused_registrations,
            start_time: MonotonicClock::start(),
        }
    }

    /// Exports the counters, with the server up for so many seconds.
    pub fn update_prometheus_at(&mut self, uptime_seconds: u64)
        ensures
            final(self).counters == old(self).counters,
            final(self).exporter@ == old(self).exporter@.updated(
                old(self).counters,
                uptime_seconds,
            ),
            final(self).exporter.labels() == old(self).exporter.labels(),
            final(self).refused_registrations == old(self).refused_registrations,
            final(self).start_time == old(self).start_time,
    {
        self.exporter.update(&self.counters, uptime_seconds);
    }

    /// Exports the counters.
    pub fn update_prometheus(&mut self)
        ensures
            final(self).counters == old(self).counters,
            exists|at: std::time::Instant|
                final(self).exporter@ == old(self).exporter@.updated(
                    old(self).counters,
                    #[trigger] old(self).start_time.seconds(at),
                ),
            final(self).exporter.labels() == old(self).exporter.labels(),
            final(self).refused_registrations == old(self).refused_registrations,
            final(self).start_time == old(self).start_time,
    {
        let uptime: u64 = self.start_time.now_secs();
        self.update_prometheus_at(uptime)
    }

    /// Exports the counters, and comes back with all metrics of the process as text.
    pub fn export_prometheus(&mut self) -> (text: String)
        ensures
            final(self).counters == old(self).counters,
            exists|at: std::time::Instant|
                final(self).exporter@ == old(self).exporter@.updated(
                    old(self).counters,
                    #[trigger] old(self).start_time.seconds(at),
                ),
            final(self).exporter.labels() == old(self).exporter.labels(),
            final(self).refused_registrations == old(self).refused_registrations,
            final(self).start_time == old(self).start_time,
    {
        self.update_prometheus();
        gathered_text()
    }
}

/// A counter that only grows shows its own value when it is exported, however often that is done.
pub proof fn law_exported_counter_shows_its_value(track: Track, current: u64)
    requires
        track.shown == track.last,
        track.last <= current,
    ensures
        track.exported(current).shown == current,
        track.exported(current).shown == track.exported(current).last,
        track.exported(current).exported(current) == track.exported(current),
{
}

/// Each packet is counted once, with its bytes, for its tunnel and its direction, and for no
/// other.
pub proof fn law_packets_are_counted_by_direction(batch: Batch, bytes: u64)
    ensures
        batch.with_v3_rx(bytes) == (Batch {
            v3_packets_rx: batch.v3_packets_rx.wrapping_add(1),
            v3_bytes_rx: batch.v3_bytes_rx.wrapping_add(bytes),
            ..batch
        }),
        batch.with_v3_tx(bytes) == (Batch {
            v3_packets_tx: batch.v3_packets_tx.wrapping_add(1),
            v3_bytes_tx: batch.v3_bytes_tx.wrapping_add(bytes),
            ..batch
        }),
        batch.with_v2_rx(bytes) == (Batch {
            v2_packets_rx: batch.v2_packets_rx.wrapping_add(1),
            v2_bytes_rx: batch.v2_bytes_rx.wrapping_add(bytes),
            ..batch
        }),
        batch.with_v2_tx(bytes) == (Batch {
            v2_packets_tx: batch.v2_packets_tx.wrapping_add(1),
            v2_bytes_tx: batch.v2_bytes_tx.wrapping_add(bytes),
            ..batch
        }),
        FLUSH_INTERVAL == 64,
{
}

/// Adding a batch adds each of its counts to the counter of the same thing, and leaves the others;
/// an empty batch adds nothing, and nothing is left in it.
pub proof fn law_batches_add_up(batch: Batch, counters: Counters)
    ensures
        ({
            let after = batch.added_to(counters);
            &&& after.v3_packets_received == counters.v3_packets_received.wrapping_add(
                batch.v3_packets_rx as u64,
            )
            &&& after.v3_packets_sent == counters.v3_packets_sent.wrapping_add(
                batch.v3_packets_tx as u64,
            )
            &&& after.v3_bytes_received == counters.v3_bytes_received.wrapping_add(
                batch.v3_bytes_rx,
            )
            &&& after.v3_bytes_sent == counters.v3_bytes_sent.wrapping_add(batch.v3_bytes_tx)
            &&& after.v2_packets_received == counters.v2_packets_received.wrapping_add(
                batch.v2_packets_rx as u64,
            )
            &&& after.v2_packets_sent == counters.v2_packets_sent.wrapping_add(
                batch.v2_packets_tx as u64,
            )
            &&& after.v2_bytes_received == counters.v2_bytes_received.wrapping_add(
                batch.v2_bytes_rx,
            )
            &&& after.v2_bytes_sent == counters.v2_bytes_sent.wrapping_add(batch.v2_bytes_tx)
            &&& after.v3_active_clients == counters.v3_active_clients && after.v2_active_clients
                == counters.v2_active_clients
            &&& after.v3_ping_requests == counters.v3_ping_requests && after.v2_ping_requests
                == counters.v2_ping_requests
            &&& after.v2_http_requests == counters.v2_http_requests
            &&& after.p2p_requests == counters.p2p_requests && after.p2p_responses
                == counters.p2p_responses
            &&& after.rate_limit_hits == counters.rate_limit_hits && after.invalid_packets
                == counters.invalid_packets
            &&& after.dropped_packets == counters.dropped_packets && after.dropped_connections
                == counters.dropped_connections
        }),
        Batch::empty(batch.counter).added_to(counters) == counters,
        Batch::empty(batch.counter).counter == batch.counter,
{
}

/// Replacing the counters replaces nothing else.
pub proof fn law_counters_are_replaced(metrics: Metrics, counters: Counters)
    ensures
        metrics.with_counters(counters).counters == counters,
        metrics.with_counters(counters).exporter == metrics.exporter,
        metrics.with_counters(counters).start_time == metrics.start_time,
        metrics.with_counters(counters).refused_registrations == metrics.refused_registrations,
{
}

/// A counter that is exported shows as much more as it has grown since the last time, and nothing
/// more if it has not.
pub proof fn law_exported_counters_grow(track: Track, current: u64)
    ensures
        track.exported(current).last == current,
        current >= track.last ==> track.exported(current).shown == track.shown.wrapping_add(
            (current - track.last) as u64,
        ),
        current < track.last ==> track.exported(current).shown == track.shown,
        Track::zero().exported(current).shown == current,
{
}

/// Every counter and gauge that is exported is exported from the counter of the same thing.
pub proof fn law_export_shows_each_counter(
    exported: Exported,
    counters: Counters,
    uptime_seconds: u64,
)
    ensures
        ({
            let after = exported.updated(counters, uptime_seconds);
            &&& after.v3_packets_received == exported.v3_packets_received.exported(
                counters.v3_packets_received,
            )
            &&& after.v3_packets_sent == exported.v3_packets_sent.exported(
                counters.v3_packets_sent,
            )
            &&& after.v3_bytes_received == exported.v3_bytes_received.exported(
                counters.v3_bytes_received,
            )
            &&& after.v3_bytes_sent == exported.v3_bytes_sent.exported(counters.v3_bytes_sent)
            &&& after.v2_packets_received == exported.v2_packets_received.exported(
                counters.v2_packets_received,
            )
            &&& after.v2_packets_sent == exported.v2_packets_sent.exported(
                counters.v2_packets_sent,
            )
            &&& after.v2_http_requests == exported.v2_http_requests.exported(
                counters.v2_http_requests,
            )
            &&& after.rate_limit_hits == exported.rate_limit_hits.exported(
                counters.rate_limit_hits,
            )
            &&& after.dropped_packets == exported.dropped_packets.exported(
                counters.dropped_packets,
            )
            &&& after.dropped_connections == exported.dropped_connections.exported(
                counters.dropped_connections,
            )
            &&& after.v3_active_clients == counters.v3_active_clients as i64
            &&& after.v2_active_clients == counters.v2_active_clients as i64
            &&& after.uptime_seconds == uptime_seconds as i64
        }),
        Exported::zero().updated(counters, uptime_seconds).v3_packets_received.shown
            == counters.v3_packets_received,
        Exported::zero().updated(counters, uptime_seconds).v2_http_requests.shown
            == counters.v2_http_requests,
{
}

/// The server's counters are exported under these names.
pub proof fn law_metrics_have_their_names()
    ensures
        ({
            let labels = Labels::of_the_server();
            &&& labels.v3_packets_received.0 == "cncnet_v3_packets_received_total"@
            &&& labels.v3_packets_sent.0 == "cncnet_v3_packets_sent_total"@
            &&& labels.v3_bytes_received.0 == "cncnet_v3_bytes_received_total"@
            &&& labels.v3_bytes_sent.0 == "cncnet_v3_bytes_sent_total"@
            &&& labels.v3_active_clients.0 == "cncnet_v3_active_clients"@
            &&& labels.v2_packets_received.0 == "cncnet_v2_packets_received_total"@
            &&& labels.v2_packets_sent.0 == "cncnet_v2_packets_sent_total"@
            &&& labels.v2_active_clients.0 == "cncnet_v2_active_clients"@
            &&& labels.v2_http_requests.0 == "cncnet_v2_http_requests_total"@
            &&& labels.rate_limit_hits.0 == "cncnet_rate_limit_hits_total"@
            &&& labels.dropped_packets.0 == "cncnet_dropped_packets_total"@
            &&& labels.dropped_connections.0 == "cncnet_dropped_connections_total"@
            &&& labels.uptime_seconds.0 == "cncnet_uptime_seconds"@
            &&& labels.v3_packets_received.1 == "Total packets received by Tunnel V3"@
            &&& labels.v3_packets_sent.1 == "Total packets sent by Tunnel V3"@
            &&& labels.v3_bytes_received.1 == "Total bytes received by Tunnel V3"@
            &&& labels.v3_bytes_sent.1 == "Total bytes sent by Tunnel V3"@
            &&& labels.v3_active_clients.1 == "Active clients in Tunnel V3"@
            &&& labels.v2_packets_received.1 == "Total packets received by Tunnel V2"@
            &&& labels.v2_packets_sent.1 == "Total packets sent by Tunnel V2"@
            &&& labels.v2_active_clients.1 == "Active clients in Tunnel V2"@
            &&& labels.v2_http_requests.1 == "Total HTTP requests to Tunnel V2"@
            &&& labels.rate_limit_hits.1 == "Total rate limit hits"@
            &&& labels.dropped_packets.1 == "Total dropped packets"@
            &&& labels.dropped_connections.1 == "Total dropped connections"@
            &&& labels.uptime_seconds.1 == "Server uptime in seconds"@
        }),
{
}

/// Each answer counts for itself: one more refusal if it is one, and no more refusals than answers.
pub proof fn law_each_refusal_counts_once(answers: Seq<bool>, answer: bool)
    ensures
        refusals(Seq::empty()) == 0,
        refusals(answers.push(answer)) == refusals(answers) + if answer {
            0int
        } else {
            1int
        },
        refusals(answers) <= answers.len(),
    decreases answers.len(),
{
    assert(answers.push(answer).drop_last() =~= answers);
    if answers.len() > 0 {
        law_each_refusal_counts_once(answers.drop_last(), answers.last());
    }
}

/// At first nothing has been counted, gathered or exported.
pub proof fn law_counting_starts_at_zero(counter: u16)
    ensures
        ({
            let zero = Counters::zero();
            &&& zero.v3_packets_received == 0 && zero.v3_packets_sent == 0
            &&& zero.v3_bytes_received == 0 && zero.v3_bytes_sent == 0
            &&& zero.v3_active_clients == 0 && zero.v3_ping_requests == 0
            &&& zero.v2_packets_received == 0 && zero.v2_packets_sent == 0
            &&& zero.v2_bytes_received == 0 && zero.v2_bytes_sent == 0
            &&& zero.v2_active_clients == 0 && zero.v2_http_requests == 0
            &&& zero.v2_ping_requests == 0 && zero.p2p_requests == 0 && zero.p2p_responses == 0
            &&& zero.rate_limit_hits == 0 && zero.dropped_packets == 0
            &&& zero.dropped_connections == 0 && zero.invalid_packets == 0
        }),
        ({
            let empty = Batch::empty(counter);
            &&& empty.v3_packets_rx == 0 && empty.v3_packets_tx == 0
            &&& empty.v3_bytes_rx == 0 && empty.v3_bytes_tx == 0
            &&& empty.v2_packets_rx == 0 && empty.v2_packets_tx == 0
            &&& empty.v2_bytes_rx == 0 && empty.v2_bytes_tx == 0
            &&& empty.counter == counter
        }),
        ({
            let none = Exported::zero();
            let zero = Track { shown: 0, last: 0 };
            &&& none.v3_packets_received == zero && none.v3_packets_sent == zero
            &&& none.v3_bytes_received == zero && none.v3_bytes_sent == zero
            &&& none.v2_packets_received == zero && none.v2_packets_sent == zero
            &&& none.v2_http_requests == zero && none.rate_limit_hits == zero
            &&& none.dropped_packets == zero && none.dropped_connections == zero
            &&& none.v3_active_clients == 0 && none.v2_active_clients == 0
            &&& none.uptime_seconds == 0
        }),
{
}

} // verus!
