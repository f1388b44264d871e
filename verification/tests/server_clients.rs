//! Clients of the server's tunnels, their priority and the quality of their connections.

use cncnet_server::addr::SocketAddr;
use cncnet_server::relay_client::RelayClient;
use cncnet_server::tunnel_client::{QualityAnalyzer, TunnelClient};

#[test]
fn a_client_times_out() {
    let mut client = TunnelClient::new_at(30, 100);
    assert!(!client.is_timed_out_at(129));
    assert!(client.is_timed_out_at(130));
    client.set_last_receive_tick_at(120);
    assert!(!client.is_timed_out_at(149));
    assert!(!client.is_timed_out_at(50));
    let now = TunnelClient::new(30);
    assert!(!now.is_timed_out());
    assert!(TunnelClient::new(0).is_timed_out());
}

#[test]
fn bandwidth_is_smoothed() {
    let addr = SocketAddr::v4(198, 51, 100, 1, 1000);
    let mut client = TunnelClient::new_with_endpoint_at(addr, 30, 100);
    client.update_stats_at(1000, 0, 100);
    assert_eq!(client.bandwidth_estimate, 0);
    assert_eq!(client.get_priority(), 1000);
    client.update_stats_at(0, 1000, 102);
    assert_eq!(client.bandwidth_estimate, 300);
    assert_eq!(client.get_priority(), 1_000_000 / 1300);
    assert!(client.is_slow_connection());
    client.update_stats_at(2000, 0, 103);
    assert_eq!(client.bandwidth_estimate, (300 * 7 + 4000 * 3) / 10);
    let info = client.get_connection_info_at(110);
    assert_eq!(info.endpoint, Some(addr));
    assert_eq!(info.packet_count, 3);
    assert_eq!((info.bytes_received, info.bytes_sent), (3000, 1000));
    assert_eq!(info.connection_age_secs, 10);
    assert!(!info.is_timed_out);
    client.reset_stats_at(120);
    assert_eq!(client.get_connection_info_at(120).packet_count, 0);
    assert_eq!(client.get_connection_info_at(120).connection_age_secs, 0);
}

#[test]
fn trouble_raises_the_priority() {
    let mut client = TunnelClient::new_at(30, 0);
    client.update_priority_at(0);
    assert_eq!(client.get_priority(), 909);
    client.set_latency_at(120, 0);
    assert_eq!(client.get_priority(), 909 + 120);
    client.set_latency_at(9999, 0);
    assert_eq!(client.get_priority(), 909 + 500);
    client.set_packet_loss_rate_at(5000, 0);
    assert_eq!(client.packet_loss_rate, 1000);
    assert_eq!(client.get_priority(), 909 + 500 + 1000);
    client.update_priority_at(250);
    assert_eq!(client.get_priority(), 909 + 500 + 1000 + 25);
    client.update_priority_at(100_000);
    assert_eq!(client.get_priority(), 2509);
}

#[test]
fn clients_with_high_priority_come_first() {
    let mut slow = TunnelClient::new_at(30, 0);
    let mut fast = TunnelClient::new_at(30, 0);
    slow.set_latency_at(400, 0);
    fast.set_latency_at(10, 0);
    assert!(slow < fast);
    assert!(slow == fast);
    let other = TunnelClient::new_with_endpoint_at(SocketAddr::v4(1, 2, 3, 4, 5), 30, 0);
    assert!(slow != other);
}

#[test]
fn latency_samples_grow_old() {
    let mut quality = QualityAnalyzer::new();
    assert_eq!(quality.get_average_latency(), 0);
    assert_eq!(quality.get_jitter(), 0);
    quality.add_latency_sample_at(10, 100);
    quality.add_latency_sample_at(30, 110);
    quality.add_latency_sample_at(20, 120);
    assert_eq!(quality.get_average_latency(), 20);
    assert_eq!(quality.get_jitter(), 15);
    quality.add_latency_sample_at(50, 165);
    assert_eq!(quality.get_average_latency(), (30 + 20 + 50) / 3);
}

#[test]
fn a_hundred_samples_are_kept() {
    let mut quality = QualityAnalyzer::new();
    for i in 0..150 {
        quality.add_latency_sample_at(i, 1000);
    }
    assert_eq!(quality.get_average_latency(), (50 + 149) / 2);
    assert_eq!(quality.get_jitter(), 1);
}

#[test]
fn losses_are_counted_in_a_thousand() {
    let mut quality = QualityAnalyzer::new();
    assert_eq!(quality.get_packet_loss_rate(), 0);
    for i in 0..200 {
        quality.record_packet(i % 4 == 0);
    }
    assert_eq!(quality.get_packet_loss_rate(), 250);
    for _ in 0..20_000 {
        quality.record_packet(false);
    }
    assert!(quality.get_packet_loss_rate() < 10);
}

#[test]
fn clients_read_the_clock_themselves() {
    let addr = SocketAddr::v4(198, 51, 100, 1, 1000);
    let mut client = TunnelClient::new_with_endpoint(addr, 30);
    client.set_last_receive_tick();
    client.update_stats(10, 20);
    client.set_latency(120);
    client.set_packet_loss_rate(50);
    client.update_priority();
    assert!(client.get_priority() >= 120 + 50);
    let info = client.get_connection_info();
    assert_eq!((info.packet_count, info.bytes_received, info.bytes_sent), (1, 10, 20));
    assert!(info.connection_age_secs < 10);
    client.reset_stats();
    assert_eq!(client.get_connection_info().packet_count, 0);
    let mut quality = QualityAnalyzer::new();
    quality.add_latency_sample(40);
    assert_eq!(quality.get_average_latency(), 40);
}

#[test]
fn traffic_is_always_counted() {
    let mut client = RelayClient::new_at(None, 30, 100);
    client = client.received_at(1000, 101).sent_at(500, 102);
    let record = client.record();
    assert_eq!((record.traffic.packets, record.traffic.received, record.traffic.sent), (2, 1000, 500));
    assert_eq!(record.last_receive, 101);
    client = client.received_at(usize::MAX, 103).sent_at(7, 104).received_at(2, 105);
    let traffic = client.record().traffic;
    assert_eq!((traffic.packets, traffic.sent), (5, 507));
    assert_eq!(traffic.received, 1002u64.wrapping_add(usize::MAX as u64));
}
