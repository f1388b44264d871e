//! The V2 service: packets, slots and HTTP requests.

use cncnet_server::addr::{IpAddr, SocketAddr};
use cncnet_server::net::client_ids::{ClientIdAllocator, MAX_FREE_IDS};
use cncnet_server::net::receive_loop::{ReceiveAction, ReceiveEvent};
use cncnet_server::net::tunnel_client::TunnelClient;
use cncnet_server::net::tunnel_v2::{
    ServiceMetrics, TunnelV2, TunnelV2Config, DEFAULT_MAX_PINGS_PER_IP,
};
use cncnet_server::table::Table;

fn peer(last: u8) -> SocketAddr {
    SocketAddr::v4(192, 168, 1, last, 1234)
}

fn service() -> TunnelV2 {
    TunnelV2::with_config(TunnelV2Config::default())
}

fn small(max_clients: usize) -> TunnelV2 {
    TunnelV2::with_config(TunnelV2Config { max_clients, ..TunnelV2Config::default() })
}

fn table() -> Table<i16, TunnelClient> {
    Table::new()
}

fn packet(sender: i16, receiver: i16, length: usize) -> Vec<u8> {
    let mut data = vec![7u8; length];
    data[0..2].copy_from_slice(&sender.to_be_bytes());
    data[2..4].copy_from_slice(&receiver.to_be_bytes());
    data
}

#[test]
fn tunnel_v2_test_ping_limit_reached() {
    let mut service = service();
    let ip = IpAddr::V4(192, 168, 1, 1);
    for _ in 0..DEFAULT_MAX_PINGS_PER_IP {
        assert!(!service.ping_limit_reached(ip));
    }
    assert!(service.ping_limit_reached(ip));
}

#[test]
fn tunnel_v2_test_packet_validation() {
    let service = service();
    let valid_addr = SocketAddr::v4(192, 168, 1, 1, 1234);
    let loopback = SocketAddr::v4(127, 0, 0, 1, 1234);
    assert!(service.is_valid_packet(1, 2, &valid_addr));
    assert!(service.is_valid_packet(0, 0, &valid_addr));
    assert!(!service.is_valid_packet(1, 1, &valid_addr));
    assert!(!service.is_valid_packet(1, 2, &loopback));
}

#[test]
fn test_client_id_allocator() {
    let mut allocator = ClientIdAllocator::new();
    let id1 = allocator.allocate().unwrap();
    let id2 = allocator.allocate().unwrap();
    assert_ne!(id1, 0);
    assert_ne!(id2, 0);
    assert_ne!(id1, id2);
    allocator.free(id1);
    let id3 = allocator.allocate().unwrap();
    assert_eq!(id3, id1);
}

#[test]
fn test_allocate_client_ids() {
    let mut service = service();
    let mut mappings = table();
    let ids = service.allocate_client_ids(&mut mappings, 4);
    assert_eq!(ids.len(), 4);
    assert_eq!(mappings.entry_count(), 4);
    let mut unique_ids = std::collections::HashSet::new();
    for id in &ids {
        assert!(unique_ids.insert(*id));
    }
}

#[test]
fn test_parse_clients_param() {
    assert_eq!(TunnelV2::parse_clients_param("clients=4"), 4);
    assert_eq!(TunnelV2::parse_clients_param("other=1&clients=3"), 3);
    assert_eq!(TunnelV2::parse_clients_param("clients=2&clients=5"), 5);
    assert_eq!(TunnelV2::parse_clients_param("clients=abc"), 0);
    assert_eq!(TunnelV2::parse_clients_param(""), 0);
}

#[test]
fn freed_ids_come_back_in_order() {
    let mut allocator = ClientIdAllocator::new();
    let ids: Vec<i16> = (0..4).map(|_| allocator.allocate().unwrap()).collect();
    allocator.free(ids[2]);
    allocator.free(ids[0]);
    assert_eq!(allocator.allocate(), Some(ids[2]));
    assert_eq!(allocator.allocate(), Some(ids[0]));
    assert!(!ids.contains(&allocator.allocate().unwrap()));
}

#[test]
fn outstanding_ids_differ() {
    let mut allocator = ClientIdAllocator::new();
    let mut outstanding: Vec<i16> = Vec::new();
    for round in 0..300usize {
        let id = allocator.allocate().unwrap();
        assert!(!outstanding.contains(&id));
        outstanding.push(id);
        if round % 3 == 2 {
            allocator.free(outstanding.remove(round % outstanding.len()));
        }
    }
    assert_eq!(outstanding.len(), 200);
    assert_eq!(outstanding.iter().max(), Some(&201));
}

#[test]
fn no_more_ids_wait_than_there_is_room_for() {
    let mut allocator = ClientIdAllocator::new();
    for _ in 0..MAX_FREE_IDS {
        allocator.free(5);
    }
    allocator.free(6);
    for _ in 0..MAX_FREE_IDS {
        assert_eq!(allocator.allocate(), Some(5));
    }
    assert_ne!(allocator.allocate(), Some(6));
}

#[test]
fn nobody_gets_a_slot_if_there_is_not_one_for_everybody() {
    let mut service = small(5);
    let mut mappings = table();
    assert_eq!(service.allocate_client_ids_at(&mut mappings, 3, 0).len(), 3);
    assert_eq!(service.allocate_client_ids_at(&mut mappings, 3, 0).len(), 0);
    assert_eq!(mappings.entry_count(), 3);
    assert_eq!(service.allocate_client_ids_at(&mut mappings, 2, 0).len(), 2);
    assert_eq!(mappings.entry_count(), 5);
}

#[test]
fn pings_are_answered_with_their_start() {
    let mut service = service();
    let mut mappings = table();
    let mut data = packet(0, 0, 50);
    for i in 4..50 {
        data[i] = i as u8;
    }
    let reply = service.on_receive_at(&data, peer(1), &mut mappings, 0).unwrap();
    assert_eq!(reply.payload, data[..12].to_vec());
    assert_eq!(reply.to, peer(1));
    assert!(service.on_receive_at(&packet(0, 0, 49), peer(1), &mut mappings, 0).is_none());
    for _ in 1..DEFAULT_MAX_PINGS_PER_IP {
        assert!(service.on_receive_at(&data, peer(1), &mut mappings, 0).is_some());
    }
    assert!(service.on_receive_at(&data, peer(1), &mut mappings, 0).is_none());
    assert!(service.on_receive_at(&data, peer(2), &mut mappings, 0).is_some());
    assert!(service.on_receive_at(&data, peer(1), &mut mappings, 60_000).is_some());
}

#[test]
fn packets_are_relayed_between_slots() {
    let mut service = service();
    let mut mappings = table();
    let ids = service.allocate_client_ids_at(&mut mappings, 2, 0);
    let (one, two) = (ids[0], ids[1]);
    assert!(service.on_receive_at(&packet(one, two, 20), peer(1), &mut mappings, 1).is_none());
    let reply = service.on_receive_at(&packet(two, one, 20), peer(2), &mut mappings, 2).unwrap();
    assert_eq!(reply.payload, packet(two, one, 20));
    assert_eq!(reply.to, peer(1));
    let reply = service.on_receive_at(&packet(one, two, 30), peer(1), &mut mappings, 3).unwrap();
    assert_eq!(reply.to, peer(2));
    service.on_sent(&peer(1), &reply.to, true);
    service.on_sent(&peer(1), &reply.to, false);
    service.on_sent(&peer(1), &peer(1), true);
    assert_eq!(service.metrics().packets_tunneled, 1);
    assert!(service.on_receive_at(&packet(one, two, 30), peer(3), &mut mappings, 4).is_none());
    assert!(service.on_receive_at(&packet(99, two, 30), peer(3), &mut mappings, 4).is_none());
    assert!(service.on_receive_at(&packet(one, one, 30), peer(1), &mut mappings, 4).is_none());
}

#[test]
fn silent_slots_are_removed() {
    let mut service = service();
    let mut mappings = table();
    let ids = service.allocate_client_ids_at(&mut mappings, 2, 0);
    service.on_receive_at(&packet(ids[0], ids[1], 20), peer(1), &mut mappings, 20_000);
    service.cleanup_expired_at(&mut mappings, 30_000);
    assert_eq!(mappings.entry_count(), 1);
    assert_eq!(service.allocate_client_ids_at(&mut mappings, 1, 30_000), vec![ids[1]]);
}

#[test]
fn http_requests() {
    let mut service = service();
    let mut mappings = table();
    let from = peer(1);
    let status = service.handle_http_request_at("/status", "", from, &mut mappings, 0);
    assert_eq!(status.status, 200);
    assert_eq!(status.body, "200 slots free.\n0 slots in use.\n");
    let game = service.handle_http_request_at("/request", "clients=3", from, &mut mappings, 0);
    assert_eq!(game.status, 200);
    assert!(game.body.starts_with('[') && game.body.ends_with(']'));
    assert_eq!(game.body.split(',').count(), 3);
    let status = service.handle_http_request_at("/status", "", from, &mut mappings, 0);
    assert_eq!(status.body, "197 slots free.\n3 slots in use.\n");
    let wrong = service.handle_http_request_at("/maintenance/x", "", from, &mut mappings, 0);
    assert_eq!(wrong.status, 401);
    let over = service.handle_http_request_at("/status", "", from, &mut mappings, 0);
    assert_eq!(over.status, 429);
    let unknown = service.handle_http_request_at("/nothing", "", from, &mut mappings, 0);
    assert_eq!(unknown.status, 404);
    let metrics = service.metrics();
    assert_eq!(metrics.http_requests_received, 6);
    assert_eq!(metrics.http_requests_processed, 4);
    assert_eq!(metrics.http_requests_rate_limited, 1);
    assert_eq!(metrics.game_slots_allocated, 3);
}

#[test]
fn game_requests_are_for_two_to_eight() {
    let mut service = service();
    let mut mappings = table();
    assert_eq!(service.handle_game_request_at("clients=1", &mut mappings, 0).status, 400);
    assert_eq!(service.handle_game_request_at("clients=9", &mut mappings, 0).status, 400);
    assert_eq!(service.handle_game_request_at("clients=8", &mut mappings, 0).status, 200);
    let mut full = small(3);
    let mut mappings = table();
    assert_eq!(full.handle_game_request_at("clients=4", &mut mappings, 0).status, 503);
    assert_eq!(mappings.entry_count(), 0);
}

#[test]
fn maintenance_is_enabled_by_the_password() {
    let mut service = service();
    let mut mappings = table();
    assert_eq!(service.handle_maintenance_request("/maintenance/KUYn3b2z").status, 200);
    assert_eq!(service.handle_maintenance_request("/maintenance/KUYn3b2z").status, 200);
    assert_eq!(service.handle_game_request_at("clients=2", &mut mappings, 0).status, 503);
}

#[test]
fn without_password_there_is_no_maintenance() {
    let mut service = TunnelV2::with_config(TunnelV2Config {
        maintenance_password: String::new(),
        ..TunnelV2Config::default()
    });
    assert_eq!(service.handle_maintenance_request("/maintenance/").status, 401);
}

#[test]
fn heartbeats_announce_the_tunnel() {
    let mut service = TunnelV2::new(
        50005,
        100,
        "My; Server".to_string(),
        false,
        "pass word".to_string(),
        "maint".to_string(),
        "http://master/announce".to_string(),
        4,
    );
    let mut mappings = table();
    service.allocate_client_ids_at(&mut mappings, 2, 0);
    let url = service.send_heartbeat_at(&mut mappings, 10).unwrap();
    assert_eq!(
        url,
        "http://master/announce?version=2&name=My%20Server&port=50005&clients=2&maxclients=100\
         &masterpw=pass%20word&maintenance=0"
    );
    let mut quiet = TunnelV2::with_config(TunnelV2Config {
        no_master_announce: true,
        ..TunnelV2Config::default()
    });
    assert!(quiet.send_heartbeat_at(&mut mappings, 10).is_none());
}

#[test]
fn configurations_are_normalized() {
    let config = TunnelV2Config {
        port: 80,
        max_clients: 1,
        ip_limit: 0,
        name: String::new(),
        ..TunnelV2Config::default()
    }
    .normalize();
    assert_eq!(config.port, 50000);
    assert_eq!(config.max_clients, 200);
    assert_eq!(config.ip_limit, 4);
    assert_eq!(config.name, "Unnamed server");
}

#[test]
fn the_receive_loop() {
    let mut service = service();
    assert_eq!(service.on_event(ReceiveEvent::Packet(3)), ReceiveAction::Wait);
    assert_eq!(service.on_event(ReceiveEvent::Packet(4)), ReceiveAction::AskPermit);
    assert_eq!(service.on_event(ReceiveEvent::Permit(true)), ReceiveAction::Process);
    assert_eq!(service.on_event(ReceiveEvent::Permit(false)), ReceiveAction::Wait);
    assert_eq!(service.on_event(ReceiveEvent::TimedOut), ReceiveAction::Wait);
    assert_eq!(service.on_event(ReceiveEvent::Shutdown), ReceiveAction::Stop);
    assert_eq!(service.metrics().udp_packets_received, 2);
}

#[test]
fn connections_are_counted_up_and_down() {
    let mut metrics = ServiceMetrics::new();
    metrics.add_active_connections(5);
    metrics.sub_active_connections(2);
    assert_eq!(metrics.get_active_connections(), 3);
    metrics.inc_udp_received();
    metrics.inc_udp_processed();
    metrics.inc_udp_dropped();
    metrics.inc_tunneled();
    metrics.inc_http_received();
    metrics.inc_http_processed();
    metrics.inc_http_rate_limited();
    metrics.add_game_slots(8);
    let snapshot = metrics.snapshot();
    assert_eq!(snapshot.udp_packets_received, 1);
    assert_eq!(snapshot.packets_tunneled, 1);
    assert_eq!(snapshot.game_slots_allocated, 8);
    assert_eq!(snapshot.active_connections, 3);
}
