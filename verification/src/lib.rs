//! CnCNet tunnel server library.

pub mod addr;
pub mod announce;
pub mod buffer_pool;
pub mod clock;
pub mod config;
pub mod digest;
pub mod errors;
pub mod health;
pub mod http;
pub mod metrics;
pub mod net;
pub mod packet;
pub mod peer_to_peer;
pub mod rate_limiter;
pub mod relay_client;
pub mod shutdown;
pub mod stun;
pub mod table;
pub mod text;
pub mod tunnel_client;
pub mod tunnel_v2;
pub mod tunnel_v3;

pub use net::peer_to_peer::PeerToPeerService;
pub use net::tunnel_v2::TunnelV2;
pub use net::tunnel_v3::TunnelV3;
pub use net::NetworkError;
