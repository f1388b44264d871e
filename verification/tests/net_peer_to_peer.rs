//! The peer-to-peer service.

use cncnet_server::addr::{IpAddr, SocketAddr};
use cncnet_server::net::constants::STUN_ID;
use cncnet_server::net::peer_to_peer::{PeerToPeerConfig, ResponseBufferPool};
use cncnet_server::net::receive_loop::{ReceiveAction, ReceiveEvent};
use cncnet_server::PeerToPeerService;

fn request() -> [u8; 48] {
    let mut data = [0u8; 48];
    data[0..2].copy_from_slice(&STUN_ID.to_be_bytes());
    data
}

#[test]
fn test_stun_id_encoding() {
    let mut service = PeerToPeerService::new(8054);
    let buffer = service.next_buffer();
    let stun_bytes = STUN_ID.to_be_bytes();
    assert_eq!(buffer[6], stun_bytes[0]);
    assert_eq!(buffer[7], stun_bytes[1]);
}

#[test]
fn test_buffer_pool() {
    let mut pool = ResponseBufferPool::new(10);
    let buf1 = pool.get_buffer();
    let buf2 = pool.get_buffer();
    let stun_bytes = STUN_ID.to_be_bytes();
    assert_eq!(buf1[6], stun_bytes[0]);
    assert_eq!(buf1[7], stun_bytes[1]);
    assert_eq!(buf2[6], stun_bytes[0]);
    assert_eq!(buf2[7], stun_bytes[1]);
}

#[test]
fn test_valid_source_address() {
    let service = PeerToPeerService::new(8054);
    assert!(service.is_valid_source_address(&SocketAddr::v4(192, 168, 1, 1, 1234)));
    assert!(!service.is_valid_source_address(&SocketAddr::v4(127, 0, 0, 1, 1234)));
    assert!(!service.is_valid_source_address(&SocketAddr::v4(0, 0, 0, 0, 1234)));
    assert!(!service.is_valid_source_address(&SocketAddr::v4(192, 168, 1, 1, 0)));
    assert!(!service.is_valid_source_address(&SocketAddr::new(IpAddr::V6(1), 1234)));
}

#[test]
fn test_rate_limiting() {
    let config = PeerToPeerConfig { max_requests_per_ip: 5, ..PeerToPeerConfig::default() };
    let mut service = PeerToPeerService::with_config(config);
    let ip = IpAddr::V4(192, 168, 1, 1);
    for _ in 0..5 {
        assert!(service.check_rate_limits(ip));
    }
    assert!(!service.check_rate_limits(ip));
}

#[test]
fn peer_to_peer_test_metrics() {
    let config = PeerToPeerConfig { max_requests_per_ip: 8, ..PeerToPeerConfig::default() };
    let mut service = PeerToPeerService::with_config(config);
    let metrics = service.metrics();
    assert_eq!(metrics.packets_received, 0);
    assert_eq!(metrics.packets_processed, 0);
    let from = SocketAddr::v4(192, 168, 1, 1, 1234);
    for _ in 0..10 {
        assert_eq!(service.on_event(ReceiveEvent::Packet(48)), ReceiveAction::AskPermit);
        if service.handle_request_at(&request(), from, 0).is_some() {
            service.on_sent(true);
        }
    }
    let metrics = service.metrics();
    assert_eq!(metrics.packets_received, 10);
    assert_eq!(metrics.packets_processed, 8);
    assert_eq!(metrics.packets_rate_limited, 2);
    assert_eq!(metrics.active_ips, 1);
}

#[test]
fn replies_tell_the_address() {
    let mut service = PeerToPeerService::new(8054);
    let from = SocketAddr::v4(203, 0, 113, 7, 0x1234);
    let reply = service.handle_request_at(&request(), from, 0).unwrap();
    assert_eq!(reply.to, from);
    assert_eq!(reply.payload.len(), 40);
    let told: Vec<u8> = reply.payload[..6].iter().map(|byte| byte ^ 0x20).collect();
    assert_eq!(told, vec![203, 0, 113, 7, 0x12, 0x34]);
    assert_eq!(reply.payload[6..8], [0x66, 0x96]);
}

#[test]
fn bad_requests_are_not_answered() {
    let mut service = PeerToPeerService::new(8054);
    let from = SocketAddr::v4(203, 0, 113, 7, 1000);
    assert!(service.handle_request_at(&[0; 48], from, 0).is_none());
    assert!(service.handle_request_at(&request(), SocketAddr::v4(127, 0, 0, 1, 5), 0).is_none());
    let v6 = SocketAddr::new(IpAddr::V6(0x2001 << 112), 5);
    assert!(service.handle_request_at(&request(), v6, 0).is_none());
    assert_eq!(service.metrics().packets_invalid, 3);
    assert_eq!(service.on_event(ReceiveEvent::Packet(47)), ReceiveAction::Wait);
    assert_eq!(service.metrics().packets_invalid, 4);
    assert_eq!(service.on_event(ReceiveEvent::Failed), ReceiveAction::Wait);
    assert_eq!(service.metrics().processing_errors, 1);
}

#[test]
fn prepared_replies_take_turns() {
    let mut pool = ResponseBufferPool::new(2);
    let first = pool.get_buffer();
    let second = pool.get_buffer();
    assert_ne!(first, second);
    assert_eq!(pool.get_buffer(), first);
    assert_eq!(pool.get_buffer(), second);
}

#[test]
fn limits_of_silent_addresses_are_dropped() {
    let mut service = PeerToPeerService::new(8054);
    assert!(service.check_rate_limits_at(IpAddr::V4(10, 0, 0, 1), 0));
    let delay = service.cleanup_requests_at(100_000);
    assert_eq!(service.metrics().active_ips, 1);
    assert_eq!(delay, 60_000);
    service.cleanup_requests_at(300_001);
    assert_eq!(service.metrics().active_ips, 0);
}
