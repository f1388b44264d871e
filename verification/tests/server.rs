//! Configuration, errors, metrics, health, shutdown and the peer-to-peer service of the server.

use cncnet_server::addr::{IpAddr, SocketAddr};
use cncnet_server::config::{Args, ConfigError, ServerConfig};
use cncnet_server::errors::ServerError;
use cncnet_server::health;
use cncnet_server::metrics::{count_refusals, LocalMetricsBatch, Metrics};
use cncnet_server::peer_to_peer::{self, PeerToPeer, ReplyBuffer};
use cncnet_server::rate_limiter::{ConnectionRateLimiter, RateLimiter};
use cncnet_server::shutdown::ShutdownCoordinator;
use cncnet_server::NetworkError;

fn args() -> Args {
    Args {
        port: 50001,
        portv2: 50000,
        name: "Unnamed server".to_string(),
        maxclients: 200,
        nomaster: false,
        masterpw: String::new(),
        maintpw: "test123456".to_string(),
        master: "http://cncnet.org/master-announce".to_string(),
        iplimit: 8,
        iplimitv2: 4,
        nop2p: false,
        workers: 0,
        metrics_port: 9090,
    }
}

fn request() -> [u8; 48] {
    let mut data = [0u8; 48];
    data[0..2].copy_from_slice(&26262i16.to_be_bytes());
    data
}

#[test]
fn a_configuration_takes_over_the_arguments() {
    let config = ServerConfig::from_args(args()).unwrap();
    assert_eq!(config.tunnel_port, 50001);
    assert_eq!(config.tunnel_v2_port, 50000);
    assert_eq!(config.max_clients, 200);
    assert_eq!(config.ip_limit, 8);
    assert_eq!(config.ip_limit_v2, 4);
    assert_eq!(config.maintenance_password, "test123456");
    assert_eq!(config.metrics_port, 9090);
}

#[test]
fn limits_per_address_are_clamped() {
    let config = ServerConfig::from_args(Args { iplimit: 0, iplimitv2: 1000, ..args() }).unwrap();
    assert_eq!(config.ip_limit, 1);
    assert_eq!(config.ip_limit_v2, 100);
}

#[test]
fn the_runtime_gets_its_threads() {
    let chosen = ServerConfig::from_args(Args { workers: 6, ..args() }).unwrap();
    assert_eq!(chosen.runtime_threads(true, 16), Some(6));
    let default = ServerConfig::from_args(args()).unwrap();
    assert_eq!(default.runtime_threads(false, 16), None);
    assert_eq!(default.runtime_threads(true, 16), Some(4));
    assert_eq!(default.runtime_threads(true, 2), Some(2));
}

#[test]
fn privileged_ports_are_rejected() {
    let error = ServerConfig::from_args(Args { port: 80, ..args() }).err().unwrap();
    assert!(matches!(error, ConfigError::PrivilegedPort(_)));
    assert!(ServerConfig::from_args(Args { portv2: 1024, ..args() }).is_err());
    assert!(ServerConfig::from_args(Args { portv2: 1025, ..args() }).is_ok());
}

#[test]
fn the_number_of_clients_has_bounds() {
    let few = ServerConfig::from_args(Args { maxclients: 1, ..args() }).err().unwrap();
    assert!(matches!(few, ConfigError::TooFewClients));
    let many = ServerConfig::from_args(Args { maxclients: 10_001, ..args() }).err().unwrap();
    assert!(matches!(many, ConfigError::TooManyClients));
    assert!(ServerConfig::from_args(Args { maxclients: 2, ..args() }).is_ok());
    assert!(ServerConfig::from_args(Args { maxclients: 10_000, ..args() }).is_ok());
}

#[test]
fn errors_have_messages() {
    assert_eq!(ServerError::Io("broken".to_string()).message(), "IO error: broken");
    assert_eq!(ServerError::RateLimitExceeded.message(), "Rate limit exceeded");
    assert_eq!(NetworkError::Io("broken".to_string()).message(), "IO error: broken");
    assert!(!NetworkError::MaintenanceMode.message().is_empty());
    assert!(!ConfigError::TooFewClients.message().is_empty());
}

#[test]
fn batches_are_flushed_every_so_often() {
    let mut metrics = Metrics::new();
    let mut batch = LocalMetricsBatch::new();
    for _ in 0..63 {
        batch.record_v3_rx(10);
        batch.maybe_flush(&mut metrics);
    }
    assert_eq!(metrics.counters.v3_packets_received, 0);
    batch.record_v3_rx(10);
    batch.maybe_flush(&mut metrics);
    assert_eq!(metrics.counters.v3_packets_received, 64);
    assert_eq!(metrics.counters.v3_bytes_received, 640);
    batch.record_v3_tx(5);
    batch.record_v2_rx(6);
    batch.record_v2_tx(7);
    batch.flush(&mut metrics);
    batch.flush(&mut metrics);
    assert_eq!(metrics.counters.v3_bytes_sent, 5);
    assert_eq!(metrics.counters.v2_bytes_received, 6);
    assert_eq!(metrics.counters.v2_bytes_sent, 7);
    assert_eq!(metrics.counters.v2_packets_sent, 1);
}

#[test]
fn exported_metrics_follow_the_counters() {
    let mut metrics = Metrics::new();
    metrics.counters.v3_packets_received = 5;
    metrics.counters.v3_active_clients = 3;
    metrics.update_prometheus_at(60);
    assert_eq!(metrics.exporter.shown_v3_packets_received(), 5);
    assert_eq!(metrics.exporter.shown_v3_clients(), 3);
    metrics.counters.v3_packets_received = 12;
    metrics.counters.v3_active_clients = 1;
    metrics.update_prometheus();
    assert_eq!(metrics.exporter.shown_v3_packets_received(), 12);
    assert_eq!(metrics.exporter.shown_v3_clients(), 1);
}

#[test]
fn refusals_are_counted() {
    assert_eq!(count_refusals(&vec![true, false, true, false, false]), 3);
    assert_eq!(count_refusals(&vec![]), 0);
}

#[test]
fn health_requests() {
    let health = health::handle_request("/health", "metrics");
    assert_eq!((health.status, health.body.as_str()), (200, "OK"));
    let ready = health::handle_request("/ready", "metrics");
    assert_eq!((ready.status, ready.body.as_str()), (200, "READY"));
    let metrics = health::handle_request("/metrics", "metrics");
    assert_eq!((metrics.status, metrics.body.as_str()), (200, "metrics"));
    let other = health::handle_request("/", "metrics");
    assert_eq!((other.status, other.body.as_str()), (404, "Not Found"));
    assert!(health::needs_metrics("/metrics"));
    assert!(!health::needs_metrics("/health"));
}

#[test]
fn only_the_first_shutdown_fires() {
    let mut coordinator = ShutdownCoordinator::new();
    let mut early = coordinator.subscribe();
    assert!(!early.recv(Some(&coordinator)));
    assert!(coordinator.shutdown());
    assert!(!coordinator.shutdown());
    assert!(coordinator.is_shutting_down());
    assert!(early.recv(Some(&coordinator)));
    let mut late = coordinator.subscribe();
    assert!(late.recv(Some(&coordinator)));
}

#[test]
fn receivers_wake_when_the_coordinator_is_gone() {
    let coordinator = ShutdownCoordinator::new();
    let mut receiver = coordinator.subscribe();
    assert!(!receiver.recv(Some(&coordinator)));
    assert!(receiver.recv(None));
}

#[test]
fn connections_of_an_address_are_limited() {
    let mut limiter = ConnectionRateLimiter::new(2);
    let ip = IpAddr::V4(10, 0, 0, 1);
    assert!(limiter.try_acquire(&ip));
    assert!(limiter.try_acquire(&ip));
    assert!(!limiter.try_acquire(&ip));
    assert!(limiter.try_acquire(&IpAddr::V4(10, 0, 0, 2)));
    assert!(limiter.try_acquire(&IpAddr::V6(7)));
    assert_eq!(limiter.get_active_ip_count(), 3);
}

#[test]
fn a_reset_forgets_requests() {
    let mut limiter = RateLimiter::new(60, 1);
    let ip = IpAddr::V4(10, 0, 0, 1);
    assert!(limiter.check_and_increment(&ip));
    assert!(!limiter.check_and_increment(&ip));
    limiter.reset();
    assert!(limiter.check_and_increment(&ip));
}

#[test]
fn test_p2p_stun_response() {
    let mut metrics = Metrics::new();
    let mut service = PeerToPeer::new(8054);
    let mut buffer = ReplyBuffer::new();
    let from = SocketAddr::v4(198, 51, 100, 4, 0xABCD);
    assert_eq!(service.port(), 8054);
    assert!(service.on_receive(&request(), &from, &mut buffer, &mut metrics));
    let reply = buffer.content();
    assert_eq!(reply.len(), 40);
    assert_eq!(i16::from_be_bytes([reply[6], reply[7]]), 26262);
    let told: Vec<u8> = reply[..6].iter().map(|byte| byte ^ 0x20).collect();
    assert_eq!(told, vec![198, 51, 100, 4, 0xAB, 0xCD]);
    PeerToPeer::on_sent(true, &mut metrics);
    PeerToPeer::on_sent(false, &mut metrics);
    assert_eq!(metrics.counters.p2p_requests, 1);
    assert_eq!(metrics.counters.p2p_responses, 1);
}

#[test]
fn test_p2p_rate_limiting() {
    let mut metrics = Metrics::new();
    let mut service = PeerToPeer::new(8054);
    let mut buffer = ReplyBuffer::new();
    let from = SocketAddr::v4(198, 51, 100, 4, 1000);
    let mut responses = 0;
    let mut failures = 0;
    for _ in 0..5 {
        if service.on_receive(&request(), &from, &mut buffer, &mut metrics) {
            responses += 1;
        } else {
            failures += 1;
        }
    }
    for _ in 0..25 {
        if service.on_receive(&request(), &from, &mut buffer, &mut metrics) {
            responses += 1;
        } else {
            failures += 1;
        }
    }
    assert!(failures > 0, "Should have some rate-limited failures");
    assert_eq!((responses, failures), (20, 10));
    assert_eq!(metrics.counters.rate_limit_hits, 10);
    service.reset_requests();
    assert!(service.on_receive(&request(), &from, &mut buffer, &mut metrics));
}

#[test]
fn other_packets_leave_the_reply_alone() {
    let mut metrics = Metrics::new();
    let mut service = PeerToPeer::new(3478);
    let mut buffer = ReplyBuffer::with_noise([1; 40]);
    let from = SocketAddr::v4(198, 51, 100, 4, 1000);
    assert!(!service.on_receive(&[0; 48], &from, &mut buffer, &mut metrics));
    let loopback = SocketAddr::v4(127, 0, 0, 1, 1000);
    assert!(!service.on_receive(&request(), &loopback, &mut buffer, &mut metrics));
    assert_eq!(buffer.content()[..8], [1, 1, 1, 1, 1, 1, 0x66, 0x96]);
    let v6 = SocketAddr::new(IpAddr::V6(0x2001 << 112), 0x2020);
    assert!(service.on_receive(&request(), &v6, &mut buffer, &mut metrics));
    assert_eq!(buffer.content()[..6], [0x20, 0x20, 0x20, 0x20, 0, 0]);
    assert_eq!(metrics.counters.p2p_requests, 2);
    assert!(peer_to_peer::is_handled(48) && !peer_to_peer::is_handled(47));
    assert_eq!(peer_to_peer::worker_count(0), 1);
    assert_eq!(peer_to_peer::worker_count(16), 2);
}
