//! The V3 service: packets, commands, connections and blocked addresses.

use cncnet_server::addr::{IpAddr, SocketAddr};
use cncnet_server::net::command_blocklist::{
    CommandBlocklist, COMMAND_BLOCK_DURATION_SECS, MAX_FAILED_COMMANDS,
};
use cncnet_server::net::connection_state::ConnectionState;
use cncnet_server::net::receive_loop::{ReceiveAction, ReceiveEvent};
use cncnet_server::net::tunnel_client::TunnelClient;
use cncnet_server::net::tunnel_v3::{
    TunnelV3, TunnelV3Config, DEFAULT_MAX_COMMANDS_PER_IP, DEFAULT_MAX_PINGS_PER_IP,
};
use cncnet_server::table::Table;

fn ip(last: u8) -> IpAddr {
    IpAddr::V4(192, 168, 1, last)
}

fn peer(last: u8, port: u16) -> SocketAddr {
    SocketAddr::v4(192, 168, 1, last, port)
}

fn service() -> TunnelV3 {
    TunnelV3::with_config(TunnelV3Config::default())
}

fn packet(sender: u32, receiver: u32, length: usize) -> Vec<u8> {
    let mut data = vec![7u8; length];
    data[0..4].copy_from_slice(&sender.to_le_bytes());
    data[4..8].copy_from_slice(&receiver.to_le_bytes());
    data
}

fn command(number: u8, digest: &[u8; 20]) -> Vec<u8> {
    let mut data = packet(0, u32::MAX, 29);
    data[8] = number;
    data[9..29].copy_from_slice(digest);
    data
}

struct Server {
    service: TunnelV3,
    mappings: Table<u32, TunnelClient>,
    connections: ConnectionState,
}

impl Server {
    fn start(service: TunnelV3) -> Server {
        Server { service, mappings: Table::new(), connections: ConnectionState::new() }
    }

    fn receive(&mut self, data: &[u8], from: SocketAddr, now: u64) -> Option<SocketAddr> {
        let reply = self.service.on_receive_at(
            data,
            from,
            &mut self.mappings,
            &mut self.connections,
            now,
            now,
        );
        if let Some(datagram) = &reply {
            assert!(datagram.payload == data || datagram.payload == data[..12]);
        }
        reply.map(|datagram| datagram.to)
    }
}

#[test]
fn tunnel_v3_test_ping_limit_reached() {
    let mut service = service();
    for _ in 0..DEFAULT_MAX_PINGS_PER_IP {
        assert!(!service.ping_limit_reached(ip(1)));
    }
    assert!(service.ping_limit_reached(ip(1)));
}

#[test]
fn test_command_limit_reached() {
    let mut service = service();
    for _ in 0..DEFAULT_MAX_COMMANDS_PER_IP {
        assert!(!service.command_limit_reached(ip(1)));
    }
    assert!(service.command_limit_reached(ip(1)));
}

#[test]
fn test_connection_state() {
    let mut state = ConnectionState::new();
    let ip1 = ip(1);
    let ip2 = ip(2);
    assert!(state.try_add_connection(1, ip1, 2));
    assert!(state.try_add_connection(2, ip1, 2));
    assert!(!state.try_add_connection(3, ip1, 2));
    assert!(state.update_connection(1, ip2, 2));
    assert_eq!(state.get_ip_count(&ip1), 1);
    assert_eq!(state.get_ip_count(&ip2), 1);
    state.remove_connection(1);
    assert_eq!(state.get_ip_count(&ip2), 0);
}

#[test]
fn tunnel_v3_test_packet_validation() {
    let service = service();
    let valid_addr = SocketAddr::v4(192, 168, 1, 1, 1234);
    let loopback = SocketAddr::v4(127, 0, 0, 1, 1234);
    let zero_port = SocketAddr::v4(192, 168, 1, 1, 0);
    assert!(service.is_valid_packet(1, 2, &valid_addr));
    assert!(service.is_valid_packet(0, 0, &valid_addr));
    assert!(!service.is_valid_packet(1, 1, &valid_addr));
    assert!(!service.is_valid_packet(1, 2, &loopback));
    assert!(!service.is_valid_packet(1, 2, &zero_port));
}

#[test]
fn test_command_blocklist() {
    let mut blocklist = CommandBlocklist::new();
    assert!(!blocklist.is_blocked(ip(1)));
    for _ in 0..MAX_FAILED_COMMANDS {
        blocklist.record_failure(ip(1));
    }
    assert!(blocklist.is_blocked(ip(1)));
}

#[test]
fn test_connection_state_concurrent_update() {
    let mut state = ConnectionState::new();
    let mut successes = 0;
    for i in 0..10 {
        if state.update_connection(1, ip((i % 3) as u8), 5) {
            successes += 1;
        }
    }
    assert!(successes >= 1);
    assert_eq!(state.total_connections(), 1);
    let total_count: usize = (0..3).map(|i| state.get_ip_count(&ip(i))).sum();
    assert_eq!(total_count, 1);
}

#[test]
fn connections_that_end_make_room() {
    let mut state = ConnectionState::new();
    assert!(state.try_add_connection_at(1, ip(1), 1, 0));
    assert!(!state.try_add_connection_at(2, ip(1), 1, 0));
    state.remove_connection(1);
    assert!(state.try_add_connection_at(2, ip(1), 1, 0));
    assert_eq!(state.total_connections(), 1);
    assert_eq!(state.unique_ip_count(), 1);
    assert!(!state.update_connection_at(3, ip(1), 1, 0));
    assert!(state.update_connection_at(2, ip(1), 1, 0));
}

#[test]
fn three_failures_block_an_address_for_an_hour() {
    let mut blocklist = CommandBlocklist::new();
    blocklist.record_failure_at(ip(1), 100);
    blocklist.record_failure_at(ip(1), 110);
    assert!(!blocklist.is_blocked_at(ip(1), 110));
    blocklist.record_failure_at(ip(1), 120);
    assert!(blocklist.is_blocked_at(ip(1), 120));
    assert!(!blocklist.is_blocked_at(ip(2), 120));
    blocklist.cleanup_at(121);
    assert!(blocklist.is_blocked_at(ip(1), 119 + COMMAND_BLOCK_DURATION_SECS));
    assert!(!blocklist.is_blocked_at(ip(1), 121 + COMMAND_BLOCK_DURATION_SECS));
}

#[test]
fn clients_reach_each_other() {
    let mut server = Server::start(service());
    assert_eq!(server.receive(&packet(1, 2, 16), peer(1, 100), 0), None);
    assert_eq!(server.receive(&packet(2, 1, 16), peer(2, 200), 0), Some(peer(1, 100)));
    assert_eq!(server.receive(&packet(1, 2, 16), peer(1, 100), 0), Some(peer(2, 200)));
    assert_eq!(server.receive(&packet(1, 1, 16), peer(1, 100), 0), None);
    assert_eq!(server.receive(&packet(1, 2, 16), peer(3, 300), 0), None);
    assert_eq!(server.service.metrics().connections_created, 2);
    assert_eq!(server.service.metrics().active_connections, 2);
}

#[test]
fn an_id_can_be_taken_over_after_the_timeout_only() {
    let mut server = Server::start(service());
    server.receive(&packet(1, 2, 16), peer(1, 100), 0);
    server.receive(&packet(2, 1, 16), peer(2, 200), 0);
    assert_eq!(server.receive(&packet(1, 2, 16), peer(3, 300), 29_999), None);
    assert_eq!(server.receive(&packet(1, 2, 16), peer(3, 300), 30_000), Some(peer(2, 200)));
    assert_eq!(server.connections.get_ip_count(&ip(1)), 0);
    assert_eq!(server.connections.get_ip_count(&ip(3)), 1);
}

#[test]
fn an_address_has_so_many_clients() {
    let config = TunnelV3Config { ip_limit: 2, ..TunnelV3Config::default() };
    let mut server = Server::start(TunnelV3::with_config(config));
    for id in 1..4 {
        server.receive(&packet(id, 9, 16), peer(1, id as u16), 0);
    }
    assert_eq!(server.mappings.entry_count(), 2);
    assert_eq!(server.service.metrics().connections_rejected, 1);
}

#[test]
fn the_service_has_so_many_clients() {
    let config = TunnelV3Config { max_clients: 3, ..TunnelV3Config::default() };
    let mut server = Server::start(TunnelV3::with_config(config));
    for id in 1..6 {
        server.receive(&packet(id, 9, 16), peer(id as u8, 100), 0);
    }
    assert_eq!(server.mappings.entry_count(), 3);
}

#[test]
fn cleanup_removes_silent_clients() {
    let mut server = Server::start(service());
    server.receive(&packet(1, 2, 16), peer(1, 100), 0);
    server.receive(&packet(2, 1, 16), peer(2, 200), 10_000);
    server.service.cleanup_expired_at(&mut server.mappings, &mut server.connections, 30_000);
    assert_eq!(server.mappings.entry_count(), 1);
    assert_eq!(server.connections.total_connections(), 1);
    assert_eq!(server.connections.get_ip_count(&ip(1)), 0);
}

#[test]
fn pings_are_limited() {
    let mut server = Server::start(service());
    for _ in 0..DEFAULT_MAX_PINGS_PER_IP {
        assert_eq!(server.receive(&packet(0, 0, 50), peer(1, 100), 0), Some(peer(1, 100)));
    }
    assert_eq!(server.receive(&packet(0, 0, 50), peer(1, 100), 0), None);
    assert_eq!(server.receive(&packet(0, 0, 51), peer(2, 100), 0), None);
    assert_eq!(server.mappings.entry_count(), 0);
}

#[test]
fn maintenance_keeps_clients_that_are_connected() {
    let digest = [9u8; 20];
    let mut server =
        Server::start(TunnelV3::with_password_digest(TunnelV3Config::default(), Some(digest)));
    server.receive(&packet(1, 2, 16), peer(1, 100), 0);
    server.receive(&packet(2, 1, 16), peer(2, 200), 0);
    assert_eq!(server.receive(&command(0, &digest), peer(5, 500), 0), None);
    assert!(server.service.maintenance_mode());
    assert_eq!(server.receive(&packet(1, 2, 16), peer(1, 100), 0), Some(peer(2, 200)));
    assert_eq!(server.receive(&packet(3, 2, 16), peer(3, 300), 0), None);
    assert_eq!(server.mappings.entry_count(), 2);
    server.receive(&command(0, &digest), peer(5, 500), 0);
    assert!(!server.service.maintenance_mode());
}

#[test]
fn the_password_is_hashed() {
    let config = TunnelV3Config {
        maintenance_password: "abc".to_string(),
        ..TunnelV3Config::default()
    };
    let abc: [u8; 20] = [
        0xa9, 0x99, 0x3e, 0x36, 0x47, 0x06, 0x81, 0x6a, 0xba, 0x3e, 0x25, 0x71, 0x78, 0x50, 0xc2,
        0x6c, 0x9c, 0xd0, 0xd8, 0x9d,
    ];
    let mut server = Server::start(TunnelV3::with_config(config));
    server.receive(&command(0, &[0; 20]), peer(5, 500), 0);
    assert!(!server.service.maintenance_mode());
    assert_eq!(server.service.metrics().failed_commands, 1);
    server.receive(&command(0, &abc), peer(5, 500), 0);
    assert!(server.service.maintenance_mode());
}

#[test]
fn wrong_passwords_block_an_address() {
    let digest = [9u8; 20];
    let mut server =
        Server::start(TunnelV3::with_password_digest(TunnelV3Config::default(), Some(digest)));
    for _ in 0..MAX_FAILED_COMMANDS {
        server.receive(&command(0, &[0; 20]), peer(5, 500), 0);
    }
    server.receive(&command(0, &digest), peer(5, 500), 0);
    assert!(!server.service.maintenance_mode());
    server.receive(&command(0, &digest), peer(6, 500), 0);
    assert!(server.service.maintenance_mode());
}

#[test]
fn the_receive_loop_of_v3() {
    let mut service = service();
    assert_eq!(service.on_event(ReceiveEvent::Packet(7)), ReceiveAction::Wait);
    assert_eq!(service.on_event(ReceiveEvent::Packet(8)), ReceiveAction::AskPermit);
    assert_eq!(service.on_event(ReceiveEvent::Permit(true)), ReceiveAction::Process);
    assert_eq!(service.on_event(ReceiveEvent::Shutdown), ReceiveAction::Stop);
    assert_eq!(service.metrics().packets_received, 2);
}

#[test]
fn v3_heartbeats_announce_the_tunnel() {
    let mut service = TunnelV3::new(
        50001,
        200,
        "A".to_string(),
        false,
        String::new(),
        String::new(),
        "http://m".to_string(),
        8,
    );
    let mut mappings = Table::new();
    let mut connections = ConnectionState::new();
    assert_eq!(
        service.send_heartbeat_at(&mut mappings, &mut connections, 0).unwrap(),
        "http://m?version=3&name=A&port=50001&clients=0&maxclients=200&masterpw=&maintenance=0"
    );
}

#[test]
fn v3_configurations_are_normalized() {
    let config = TunnelV3Config {
        port: 1024,
        max_clients: 0,
        ip_limit: 0,
        name: "a;b".to_string(),
        ..TunnelV3Config::default()
    }
    .normalize();
    assert_eq!(config.port, 50001);
    assert_eq!(config.max_clients, 200);
    assert_eq!(config.name, "ab");
    assert_eq!(config.ip_limit, 8);
}
