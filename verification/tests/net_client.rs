//! Clients of the network services.

use cncnet_server::addr::SocketAddr;
use cncnet_server::clock::MonotonicClock;
use cncnet_server::net::tunnel_client::{TunnelClient, MAX_ELAPSED_MS};

fn pause(ms: u128) {
    let start = std::time::Instant::now();
    while start.elapsed().as_millis() < ms {}
}

#[test]
fn test_client_timeout() {
    let mut client = TunnelClient::with_timeout(1);
    assert!(!client.is_timed_out());
    let remaining = client.time_until_timeout().unwrap();
    assert!(remaining > 900);
    pause(1100);
    assert!(client.is_timed_out());
    assert!(client.time_until_timeout().is_none());
    client.update_last_receive();
    assert!(!client.is_timed_out());
    assert!(client.time_until_timeout().is_some());
}

#[test]
fn test_client_endpoint() {
    let mut client = TunnelClient::new();
    assert!(client.remote_ep.is_none());
    let addr = SocketAddr::v4(127, 0, 0, 1, 8080);
    client.set_endpoint(addr);
    assert_eq!(client.remote_ep, Some(addr));
    assert_eq!(client.endpoint(), Some(addr));
}

#[test]
fn test_time_tracking() {
    let mut client = TunnelClient::with_timeout(10);
    assert!(client.time_since_last_receive() < 100);
    pause(500);
    let elapsed = client.time_since_last_receive();
    assert!(elapsed >= 500);
    assert!(elapsed < 600);
    client.update_last_receive();
    assert!(client.time_since_last_receive() < 100);
}

#[test]
fn test_concurrent_updates() {
    let mut client = TunnelClient::with_timeout(5);
    for _ in 0..10 {
        for _ in 0..100 {
            client.update_last_receive();
        }
    }
    assert!(!client.is_timed_out());
}

#[test]
fn test_edge_cases() {
    let mut client = TunnelClient::with_timeout(0);
    pause(10);
    assert!(client.is_timed_out());

    let mut client = TunnelClient::with_timeout(u64::MAX / 1000);
    assert!(!client.is_timed_out());
    assert!(client.time_since_last_receive() < 1000);
    assert!(client.time_until_timeout().is_some());
}

#[test]
fn test_reset_functionality() {
    let mut client = TunnelClient::with_timeout(1);
    pause(900);
    assert!(!client.is_timed_out());
    client.reset_timeout();
    pause(500);
    assert!(!client.is_timed_out());
    pause(600);
    assert!(client.is_timed_out());
}

#[test]
fn test_clone() {
    let mut client1 = TunnelClient::with_timeout(5);
    let addr = SocketAddr::v4(192, 168, 1, 1, 1234);
    client1.set_endpoint(addr);
    client1.update_last_receive();
    let mut client2 = client1.clone();
    assert_eq!(client2.remote_ep, Some(addr));
    assert_eq!(client2.timeout_duration(), client1.timeout_duration());
    assert!(!client2.is_timed_out());
}

#[test]
fn silence_and_time_left_add_up() {
    let mut client = TunnelClient::with_clock(30, MonotonicClock::start(), 1000);
    client.update_last_receive_at(5000);
    assert_eq!(client.time_since_last_receive_at(12_000), 7000);
    assert_eq!(client.time_until_timeout_at(12_000), Some(23_000));
    assert!(!client.is_timed_out_at(34_999));
    assert!(client.is_timed_out_at(35_000));
    assert_eq!(client.time_until_timeout_at(35_000), None);
    assert_eq!(client.timeout_duration(), 30_000);
    assert!(!client.has_time_resets());
}

#[test]
fn a_time_beyond_measure_takes_a_new_reference() {
    let mut client = TunnelClient::with_clock(30, MonotonicClock::start(), 0);
    client.update_last_receive_at(MAX_ELAPSED_MS + 1);
    assert!(client.has_time_resets());
    assert_eq!(client.reset_count(), 1);
    assert!(!client.is_timed_out_at(MAX_ELAPSED_MS + 2));
}
