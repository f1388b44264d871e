//! Metrics as text. The registry is that of the process, so nothing else is tested here.

use cncnet_server::metrics::Metrics;

#[test]
fn exported_text_shows_the_counters() {
    let mut metrics = Metrics::new();
    metrics.counters.v2_http_requests = 17;
    metrics.counters.dropped_packets = 4;
    metrics.counters.v3_active_clients = 6;
    let text = metrics.export_prometheus();
    for line in [
        "# HELP cncnet_v2_http_requests_total Total HTTP requests to Tunnel V2",
        "# TYPE cncnet_v2_http_requests_total counter",
        "cncnet_v2_http_requests_total 17",
        "cncnet_dropped_packets_total 4",
        "# TYPE cncnet_v3_active_clients gauge",
        "cncnet_v3_active_clients 6",
        "cncnet_v3_packets_received_total 0",
        "cncnet_v3_packets_sent_total 0",
        "cncnet_v3_bytes_received_total 0",
        "cncnet_v3_bytes_sent_total 0",
        "cncnet_v2_packets_received_total 0",
        "cncnet_v2_packets_sent_total 0",
        "cncnet_v2_active_clients 0",
        "cncnet_rate_limit_hits_total 0",
        "cncnet_dropped_connections_total 0",
    ] {
        assert!(text.lines().any(|shown| shown == line), "{}", line);
    }
    assert!(text.lines().any(|shown| shown.starts_with("cncnet_uptime_seconds ")));
}
