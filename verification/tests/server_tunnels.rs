//! The tunnels of the server.

use cncnet_server::addr::{IpAddr, SocketAddr};
use cncnet_server::config::{Args, ServerConfig};
use cncnet_server::metrics::{LocalMetricsBatch, Metrics};
use cncnet_server::peer_to_peer::{PeerToPeer, ReplyBuffer};
use cncnet_server::tunnel_v2::{self, TunnelV2};
use cncnet_server::tunnel_v3::{self, TunnelV3, Worker, WorkerAction};

fn args() -> Args {
    Args {
        port: 50001,
        portv2: 50000,
        name: "My server".to_string(),
        maxclients: 10,
        nomaster: false,
        masterpw: "p&w".to_string(),
        maintpw: "abc".to_string(),
        master: "http://cncnet.org/master-announce".to_string(),
        iplimit: 8,
        iplimitv2: 4,
        nop2p: false,
        workers: 0,
        metrics_port: 9090,
    }
}

fn config() -> ServerConfig {
    ServerConfig::from_args(args()).unwrap()
}

fn peer(last: u8) -> SocketAddr {
    SocketAddr::v4(198, 51, 100, last, 1000)
}

fn packet_v3(sender: u32, receiver: u32, length: usize) -> Vec<u8> {
    let mut data = vec![7u8; length];
    data[0..4].copy_from_slice(&sender.to_le_bytes());
    data[4..8].copy_from_slice(&receiver.to_le_bytes());
    data
}

fn message_v3(sender: u32, receiver: u32, payload: &[u8]) -> Vec<u8> {
    let mut data = packet_v3(sender, receiver, 8);
    data.extend_from_slice(payload);
    data
}

fn packet_v2(sender: i16, receiver: i16, length: usize) -> Vec<u8> {
    let mut data = vec![7u8; length];
    data[0..2].copy_from_slice(&sender.to_be_bytes());
    data[2..4].copy_from_slice(&receiver.to_be_bytes());
    data
}

fn ids_of(body: &str) -> Vec<i16> {
    body.trim_matches(|c| c == '[' || c == ']').split(',').map(|id| id.parse().unwrap()).collect()
}

const ABC: [u8; 20] = [
    0xa9, 0x99, 0x3e, 0x36, 0x47, 0x06, 0x81, 0x6a, 0xba, 0x3e, 0x25, 0x71, 0x78, 0x50, 0xc2, 0x6c,
    0x9c, 0xd0, 0xd8, 0x9d,
];

fn command(number: u8, digest: &[u8; 20]) -> Vec<u8> {
    let mut data = packet_v3(0, u32::MAX, 29);
    data[8] = number;
    data[9..29].copy_from_slice(digest);
    data
}

struct V3 {
    tunnel: TunnelV3,
    metrics: Metrics,
    batch: LocalMetricsBatch,
}

impl V3 {
    fn start() -> V3 {
        V3 {
            tunnel: TunnelV3::new(config()),
            metrics: Metrics::new(),
            batch: LocalMetricsBatch::new(),
        }
    }

    fn receive(&mut self, data: &[u8], from: SocketAddr, now: u64) -> Option<(Vec<u8>, SocketAddr)> {
        self.tunnel
            .on_receive_at(data, from, now, now, &mut self.metrics, &mut self.batch)
            .map(|reply| (reply.payload, reply.to))
    }
}

#[test]
fn test_tunnel_v3_ping() {
    let mut server = V3::start();
    let mut ping = packet_v3(0, 0, 50);
    ping[11] = 42;
    let (payload, to) = server.receive(&ping, peer(1), 0).unwrap();
    assert_eq!(payload, ping[..12].to_vec());
    assert_eq!(to, peer(1));
    assert_eq!(server.receive(&packet_v3(0, 0, 40), peer(1), 0), None);
    for _ in 1..20 {
        assert!(server.receive(&ping, peer(1), 0).is_some());
    }
    assert_eq!(server.receive(&ping, peer(1), 0), None);
    assert_eq!(server.metrics.counters.v3_ping_requests, 20);
}

#[test]
fn test_tunnel_v3_relay() {
    let mut server = V3::start();
    let client1_id: u32 = 0x12345678;
    let client2_id: u32 = 0x87654321;
    let announce1 = message_v3(client1_id, client2_id, b"");
    let announce2 = message_v3(client2_id, client1_id, b"");
    assert_eq!(server.receive(&announce1, peer(1), 0), None);
    assert_eq!(server.receive(&announce2, peer(2), 0), Some((announce2.clone(), peer(1))));
    let message = message_v3(client1_id, client2_id, b"Hello C2");
    let (payload, to) = server.receive(&message, peer(1), 0).unwrap();
    assert_eq!(to, peer(2));
    assert_eq!(payload.len(), 16);
    assert_eq!(&payload[8..16], b"Hello C2");
    server.tunnel.on_sent(&message, 16, true, 0, &mut server.batch);
    server.batch.flush(&mut server.metrics);
    assert_eq!(server.metrics.counters.v3_packets_received, 3);
    assert_eq!(server.metrics.counters.v3_packets_sent, 1);
    assert_eq!(server.metrics.counters.v3_bytes_sent, 16);
    assert_eq!(server.metrics.counters.v3_active_clients, 2);
}

#[test]
fn test_tunnel_v3_concurrent_clients() {
    let mut server = V3::start();
    let client_ids: Vec<u32> = (0..5).map(|i| 0x10000000u32 + i).collect();
    for i in 0..5 {
        for j in 0..5 {
            if i != j {
                let announce = message_v3(client_ids[i], client_ids[j], b"");
                server.receive(&announce, peer(i as u8 + 1), 0);
            }
        }
    }
    let first = message_v3(client_ids[0], client_ids[1], b"TestMsg1");
    let (payload, to) = server.receive(&first, peer(1), 0).unwrap();
    assert_eq!(to, peer(2));
    assert_eq!(payload.len(), 16);
    assert_eq!(&payload[8..16], b"TestMsg1");
    let second = message_v3(client_ids[2], client_ids[3], b"TestMsg2");
    let (payload, to) = server.receive(&second, peer(3), 0).unwrap();
    assert_eq!(to, peer(4));
    assert_eq!(payload.len(), 16);
    assert_eq!(&payload[8..16], b"TestMsg2");
    assert_eq!(server.tunnel.client_count(), 5);
    assert_eq!(server.tunnel.tracked_ip_count(), 5);
}

#[test]
fn v3_takes_no_more_clients_than_configured() {
    let mut server = V3::start();
    for id in 1..14 {
        server.receive(&packet_v3(id, 99, 16), peer(id as u8), 0);
    }
    assert_eq!(server.tunnel.client_count(), 10);
    assert_eq!(server.metrics.counters.dropped_packets, 3);
}

#[test]
fn v3_limits_the_connections_of_an_address() {
    let mut server = V3::start();
    for id in 1..10 {
        server.receive(&packet_v3(id, 99, 16), SocketAddr::v4(198, 51, 100, 1, id as u16), 0);
    }
    assert_eq!(server.tunnel.client_count(), 8);
    assert_eq!(server.metrics.counters.rate_limit_hits, 1);
}

#[test]
fn v3_ids_are_taken_over_after_the_timeout_only() {
    let mut server = V3::start();
    server.receive(&packet_v3(1, 2, 16), peer(1), 100);
    server.receive(&packet_v3(2, 1, 16), peer(2), 129);
    assert_eq!(server.receive(&packet_v3(1, 2, 16), peer(3), 129), None);
    assert!(server.receive(&packet_v3(1, 2, 16), peer(3), 130).is_some());
    assert_eq!(server.receive(&packet_v3(1, 2, 16), peer(1), 131), None);
}

#[test]
fn v3_commands_need_the_password_and_patience() {
    let mut server = V3::start();
    server.receive(&packet_v3(1, 2, 16), peer(1), 0);
    server.receive(&command(0, &ABC), peer(9), 59);
    assert!(!server.tunnel.maintenance_mode());
    server.receive(&command(0, &[0; 20]), peer(9), 60);
    assert!(!server.tunnel.maintenance_mode());
    server.receive(&command(0, &ABC), peer(9), 100);
    assert!(!server.tunnel.maintenance_mode());
    server.receive(&command(0, &ABC), peer(9), 120);
    assert!(server.tunnel.maintenance_mode());
    assert_eq!(server.tunnel.client_count(), 1);
    server.receive(&command(1, &ABC), peer(9), 180);
    assert_eq!(server.tunnel.client_count(), 0);
    server.receive(&command(0, &ABC), peer(9), 240);
    assert!(!server.tunnel.maintenance_mode());
}

#[test]
fn v3_maintenance_keeps_connected_clients() {
    let mut tunnel = TunnelV3::with_password_digest(config(), Some([3; 20]));
    let mut metrics = Metrics::new();
    let mut batch = LocalMetricsBatch::new();
    tunnel.handle_data_forward_with(1, 2, &packet_v3(1, 2, 16), peer(1), 0, true, &mut metrics);
    tunnel.handle_data_forward_with(2, 1, &packet_v3(2, 1, 16), peer(2), 0, true, &mut metrics);
    let none = tunnel.on_receive_at(
        &command(0, &[3; 20]),
        peer(9),
        60,
        0,
        &mut metrics,
        &mut batch,
    );
    assert!(none.is_none() && tunnel.maintenance_mode());
    assert!(!tunnel.needs_slot(3, &peer(3), 0));
    let old = tunnel.handle_data_forward(1, 2, &packet_v3(1, 2, 16), peer(1), 0, &mut metrics);
    assert_eq!(old.unwrap().to, peer(2));
    let new = tunnel.handle_data_forward(3, 2, &packet_v3(3, 2, 16), peer(3), 0, &mut metrics);
    assert!(new.is_none());
    assert_eq!(tunnel.client_count(), 2);
}

#[test]
fn v3_heartbeats() {
    let mut server = V3::start();
    server.receive(&packet_v3(1, 2, 16), peer(1), 0);
    let first = server.tunnel.heartbeat_at(100, &mut server.metrics);
    assert_eq!(
        first.announce.unwrap(),
        "http://cncnet.org/master-announce?version=3&name=My%20server&port=50001&clients=1\
         &maxclients=10&masterpw=p%26w&maintenance=0"
    );
    assert!(!first.log);
    assert!(!server.tunnel.heartbeat_at(100, &mut server.metrics).cleaned);
    assert_eq!(server.tunnel.client_count(), 1);
    assert!(server.tunnel.heartbeat_at(100, &mut server.metrics).cleaned);
    assert_eq!(server.tunnel.client_count(), 0);
    server.tunnel.heartbeat_at(100, &mut server.metrics);
    assert!(server.tunnel.heartbeat_at(100, &mut server.metrics).log);
    let mut quiet = TunnelV3::new(ServerConfig::from_args(Args { nomaster: true, ..args() }).unwrap());
    assert!(quiet.heartbeat_at(0, &mut server.metrics).announce.is_none());
}

#[test]
fn v3_workers() {
    let mut metrics = Metrics::new();
    let mut worker = Worker::new();
    assert_eq!(worker.on_packet(8, &mut metrics), WorkerAction::Handle);
    assert_eq!(worker.on_packet(7, &mut metrics), WorkerAction::Wait);
    assert_eq!(metrics.counters.invalid_packets, 1);
    for _ in 0..100 {
        assert_eq!(worker.on_error(&mut metrics), WorkerAction::Wait);
    }
    assert_eq!(worker.on_error(&mut metrics), WorkerAction::Report);
    assert_eq!(worker.on_error(&mut metrics), WorkerAction::Wait);
    assert_eq!(tunnel_v3::receiver_count(1), 2);
    assert_eq!(tunnel_v3::receiver_count(3), 3);
    assert_eq!(tunnel_v3::receiver_count(64), 4);
}

#[test]
fn test_tunnel_v2_ping() {
    let mut tunnel = TunnelV2::new(config());
    let mut metrics = Metrics::new();
    let mut batch = LocalMetricsBatch::new();
    let mut ping = packet_v2(0, 0, 50);
    ping[11] = 42;
    let reply = tunnel.on_udp_receive_at(&ping, peer(1), 0, &mut metrics, &mut batch).unwrap();
    assert_eq!(reply.payload, ping[..12].to_vec());
    assert_eq!(reply.to, peer(1));
    assert_eq!(metrics.counters.v2_ping_requests, 1);
}

#[test]
fn test_tunnel_v2_http_status() {
    let mut tunnel = TunnelV2::new(config());
    let mut metrics = Metrics::new();
    tunnel.on_connection(false, &mut metrics);
    tunnel.offer_id(5, 0);
    let status =
        tunnel.handle_http_request_with(true, "/status", None, true, 0, &mut metrics);
    assert_eq!(status.status, 200);
    assert_eq!(status.body, "9 slots free.\n1 slots in use.\n1 connections dropped.\n");
}

#[test]
fn test_tunnel_v2_game_request() {
    let mut tunnel = TunnelV2::new(config());
    let mut metrics = Metrics::new();
    let ip = IpAddr::V4(198, 51, 100, 1);
    let game =
        tunnel.handle_http_request(true, "/request", Some("clients=4"), ip, &mut metrics);
    assert_eq!(game.status, 200);
    assert_eq!(game.header, Some(("Content-Type", "application/json")));
    assert!(game.body.starts_with('[') && game.body.ends_with(']'));
    let mut ids = ids_of(&game.body);
    assert_eq!(ids.len(), 4);
    assert!(!ids.contains(&0));
    ids.sort();
    ids.dedup();
    assert_eq!(ids.len(), 4);
    assert_eq!(tunnel.client_count(), 4);
    assert_eq!(metrics.counters.v2_active_clients, 4);
}

#[test]
fn test_tunnel_v2_maintenance_mode() {
    let mut tunnel = TunnelV2::new(config());
    let mut metrics = Metrics::new();
    let wrong = tunnel.handle_maintenance("/maintenance/wrong_password");
    assert_eq!(wrong.status, 401);
    let on = tunnel.handle_maintenance("/maintenance/abc");
    assert_eq!((on.status, on.body.as_str()), (200, "Maintenance mode enabled"));
    let refused = tunnel.handle_request_at(Some("clients=2"), 0, &mut metrics);
    assert_eq!((refused.status, refused.body.as_str()), (503, "Server in maintenance mode"));
    let off = tunnel.handle_maintenance("/maintenance/abc");
    assert_eq!((off.status, off.body.as_str()), (200, "Maintenance mode disabled"));
    assert!(!tunnel.maintenance_mode());
    let mut open =
        TunnelV2::new(ServerConfig::from_args(Args { maintpw: String::new(), ..args() }).unwrap());
    assert_eq!(open.handle_maintenance("/maintenance/").status, 401);
}

#[test]
fn test_integrated_scenario() {
    let mut server = V3::start();
    let mut slots = TunnelV2::new(config());
    let mut p2p = PeerToPeer::new(8054);
    let mut buffer = ReplyBuffer::new();

    let mut stun_request = [0u8; 48];
    let stun_id: i16 = 26262;
    stun_request[0..2].copy_from_slice(&stun_id.to_be_bytes());
    assert!(p2p.on_receive(&stun_request, &peer(1), &mut buffer, &mut server.metrics));
    let reply = buffer.content();
    assert_eq!(reply.len(), 40);
    assert_eq!(u16::from_be_bytes([reply[4] ^ 0x20, reply[5] ^ 0x20]), 1000);

    let ip = IpAddr::V4(198, 51, 100, 1);
    let game =
        slots.handle_http_request(true, "/request", Some("clients=2"), ip, &mut server.metrics);
    assert_eq!(game.status, 200);
    let slot_ids = ids_of(&game.body);
    assert_eq!(slot_ids.len(), 2);

    let v3_id1 = slot_ids[0] as u32;
    let v3_id2 = slot_ids[1] as u32;
    server.receive(&message_v3(v3_id1, v3_id2, b""), peer(1), 0);
    server.receive(&message_v3(v3_id2, v3_id1, b""), peer(2), 0);
    let game_data = message_v3(v3_id1, v3_id2, b"GameData");
    let (payload, to) = server.receive(&game_data, peer(1), 0).unwrap();
    assert_eq!(to, peer(2));
    assert_eq!(payload.len(), 16);
    assert_eq!(&payload[8..16], b"GameData");
}

#[test]
fn v2_clients_with_slots_reach_each_other() {
    let mut tunnel = TunnelV2::new(config());
    let mut metrics = Metrics::new();
    let mut batch = LocalMetricsBatch::new();
    let game = tunnel.handle_request_at(Some("clients=2"), 0, &mut metrics);
    let ids = ids_of(&game.body);
    let (one, two) = (ids[0], ids[1]);
    let first = tunnel.on_udp_receive_at(
        &packet_v2(one, two, 16),
        peer(1),
        0,
        &mut metrics,
        &mut batch,
    );
    assert!(first.is_none());
    let second = tunnel
        .on_udp_receive_at(&packet_v2(two, one, 16), peer(2), 0, &mut metrics, &mut batch)
        .unwrap();
    assert_eq!((second.payload, second.to), (packet_v2(two, one, 16), peer(1)));
    tunnel.on_sent(&packet_v2(two, one, 16), 16, true, 0, &mut batch);
    batch.flush(&mut metrics);
    assert_eq!(metrics.counters.v2_packets_received, 2);
    assert_eq!(metrics.counters.v2_packets_sent, 1);
}

#[test]
fn v2_slots_go_to_the_drawn_ids() {
    let mut tunnel = TunnelV2::new(config());
    let mut metrics = Metrics::new();
    tunnel.offer_id(9, 0);
    let game =
        tunnel.handle_request_with(Some("clients=3"), &vec![4, 0, 4, 9, -7, 5, 6], 0, &mut metrics);
    assert_eq!((game.status, game.body.as_str()), (200, "[4,-7,5]"));
    assert_eq!(tunnel.client_count(), 4);
    let few = tunnel.handle_request_with(Some("clients=2"), &vec![4, 9, 6], 0, &mut metrics);
    assert_ne!(few.status, 200);
    let refused = tunnel.handle_request_with(Some("clients=9"), &vec![11, 12], 0, &mut metrics);
    assert_eq!(refused.status, 400);
    tunnel.handle_maintenance("/maintenance/abc");
    let closed = tunnel.handle_request_with(Some("clients=2"), &vec![11, 12], 0, &mut metrics);
    assert_eq!(closed.status, 503);
}

#[test]
fn pings_are_answered_within_the_limit() {
    let v2 = TunnelV2::new(config());
    let v3 = TunnelV3::new(config());
    let mut metrics = Metrics::new();
    let ping: Vec<u8> = (0..50).collect();
    let reply = v2.on_ping(&ping, peer(1), true, &mut metrics).unwrap();
    assert_eq!((reply.payload, reply.to), (ping[..12].to_vec(), peer(1)));
    let reply = v3.on_ping(&ping, peer(2), true, &mut metrics).unwrap();
    assert_eq!((reply.payload, reply.to), (ping[..12].to_vec(), peer(2)));
    assert!(v2.on_ping(&ping, peer(1), false, &mut metrics).is_none());
    assert!(v3.on_ping(&ping, peer(2), false, &mut metrics).is_none());
    assert_eq!(metrics.counters.v2_ping_requests, 1);
    assert_eq!(metrics.counters.v3_ping_requests, 1);
}

#[test]
fn v2_requests_that_are_refused() {
    let mut tunnel = TunnelV2::new(config());
    let mut metrics = Metrics::new();
    assert_eq!(tunnel.handle_request_at(None, 0, &mut metrics).status, 400);
    assert_eq!(tunnel.handle_request_at(Some("clients=1"), 0, &mut metrics).status, 400);
    assert_eq!(tunnel.handle_request_at(Some("clients=9"), 0, &mut metrics).status, 400);
    assert_eq!(tunnel.handle_request_at(Some("clients=8"), 0, &mut metrics).status, 200);
    let full = tunnel.handle_request_at(Some("clients=3"), 0, &mut metrics);
    assert_eq!((full.status, full.body.as_str()), (503, "Not enough slots available"));
    assert_eq!(tunnel.client_count(), 8);
    assert_eq!(TunnelV2::parse_clients(Some("a=1&clients=6&clients=7")), 6);
    assert_eq!(TunnelV2::parse_clients(Some("clients=x")), 0);
}

#[test]
fn v2_http_requests() {
    let mut tunnel = TunnelV2::new(config());
    let mut metrics = Metrics::new();
    let ip = IpAddr::V4(198, 51, 100, 1);
    for _ in 0..4 {
        let health = tunnel.handle_http_request(true, "/health", None, ip, &mut metrics);
        assert_eq!((health.status, health.body.as_str()), (200, "OK"));
    }
    let over = tunnel.handle_http_request(true, "/health", None, ip, &mut metrics);
    assert_eq!(over.status, 429);
    assert_eq!(over.header, Some(("Retry-After", "60")));
    let post = tunnel.handle_http_request_with(false, "/health", None, true, 0, &mut metrics);
    assert_eq!((post.status, post.body.as_str()), (404, "Not Found"));
    assert_eq!(metrics.counters.v2_http_requests, 6);
    assert_eq!(metrics.counters.rate_limit_hits, 1);
}

#[test]
fn v2_slots_time_out() {
    let mut tunnel = TunnelV2::new(config());
    let mut metrics = Metrics::new();
    assert!(tunnel.offer_id(5, 0));
    assert!(!tunnel.offer_id(5, 0));
    assert!(!tunnel.offer_id(0, 0));
    assert!(tunnel.offer_id(6, 10));
    assert!(tunnel.handle_data_forward(5, 6, &packet_v2(5, 6, 9), peer(1), 20).is_none());
    tunnel.cleanup_expired_mappings_at(40, &mut metrics);
    assert_eq!(tunnel.client_count(), 1);
    let heartbeat = tunnel.heartbeat_at(50, &mut metrics);
    assert_eq!(tunnel.client_count(), 0);
    assert_eq!(
        heartbeat.announce.unwrap(),
        "http://cncnet.org/master-announce?version=2&name=My%20server&port=50000&clients=0\
         &maxclients=10&masterpw=p%26w&maintenance=0"
    );
    assert_eq!(heartbeat.dropped, 0);
}

#[test]
fn v2_maintenance_keeps_connected_clients() {
    let mut tunnel = TunnelV2::new(config());
    for id in [1, 2, 3] {
        tunnel.offer_id(id, 0);
    }
    tunnel.handle_data_forward(1, 2, &packet_v2(1, 2, 9), peer(1), 0);
    tunnel.handle_data_forward(2, 1, &packet_v2(2, 1, 9), peer(2), 0);
    tunnel.handle_maintenance("/maintenance/abc");
    let reply = tunnel.handle_data_forward(1, 2, &packet_v2(1, 2, 9), peer(1), 100).unwrap();
    assert_eq!(reply.to, peer(2));
    assert!(tunnel.handle_data_forward(2, 1, &packet_v2(2, 1, 9), peer(9), 200).is_none());
    assert!(tunnel.handle_data_forward(7, 1, &packet_v2(7, 1, 9), peer(7), 0).is_none());
    assert!(tunnel.handle_data_forward(3, 1, &packet_v2(3, 1, 9), peer(3), 0).is_none());
    tunnel.handle_maintenance("/maintenance/abc");
    assert!(tunnel.handle_data_forward(3, 1, &packet_v2(3, 1, 9), peer(3), 0).is_some());
    assert!(tunnel_v2::is_handled(4) && !tunnel_v2::is_handled(3) && tunnel_v2::is_handled(1472));
    assert_eq!(tunnel_v2::receiver_count(0), 1);
}

#[test]
fn packets_from_impossible_addresses_are_invalid() {
    let v2 = TunnelV2::new(config());
    let v3 = TunnelV3::new(config());
    for addr in [
        SocketAddr::v4(127, 0, 0, 1, 1000),
        SocketAddr::v4(0, 0, 0, 0, 1000),
        SocketAddr::v4(255, 255, 255, 255, 1000),
        SocketAddr::v4(224, 0, 0, 1, 1000),
        SocketAddr::v4(198, 51, 100, 1, 0),
        SocketAddr::new(IpAddr::V6(0), 1000),
        SocketAddr::new(IpAddr::V6(1), 1000),
        SocketAddr::new(IpAddr::V6(0xff02 << 112), 1000),
    ] {
        assert!(!v2.validate_packet(1, 2, &addr));
        assert!(!v3.validate_packet(1, 2, &addr));
    }
    assert!(v2.validate_packet(1, 2, &peer(1)) && v3.validate_packet(1, 2, &peer(1)));
    assert!(!v2.validate_packet(1, 1, &peer(1)) && !v3.validate_packet(1, 1, &peer(1)));
    assert!(v3.validate_packet(1, 2, &SocketAddr::new(IpAddr::V6(0x2001 << 112), 1000)));
    assert_eq!(TunnelV3::parse_packet_header(&packet_v3(5, 6, 8)), Some((5, 6)));
    assert_eq!(TunnelV3::parse_packet_header(&[0; 7]), None);
}

#[test]
fn tunnels_take_any_port_and_number_of_clients() {
    let mut unusual = config();
    unusual.tunnel_port = 80;
    unusual.tunnel_v2_port = 81;
    unusual.max_clients = 20_000;
    assert_eq!(TunnelV3::new(unusual.clone()).client_count(), 0);
    unusual.max_clients = 0;
    let mut tunnel = TunnelV2::new(unusual);
    let full = tunnel.handle_request_at(Some("clients=2"), 0, &mut Metrics::new());
    assert_eq!((full.status, full.body.as_str()), (503, "Not enough slots available"));
}
