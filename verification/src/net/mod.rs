//! Tunnel and peer-to-peer services.

pub mod client_ids;
pub mod command_blocklist;
pub mod connection_state;
pub mod constants;
pub mod peer_to_peer;
pub mod rate_limiter;
pub mod receive_loop;
pub mod tunnel_client;
pub mod tunnel_v2;
pub mod tunnel_v3;
pub mod utils;

use vstd::prelude::*;

verus! {

/// An error of a network operation.
#[derive(Debug)]
pub enum NetworkError {
    /// Input or output failed, for the given reason.
    Io(String),
    InvalidPacket,
    ClientLimitReached,
    IpLimitReached,
    MaintenanceMode,
    Unauthorized,
}

impl NetworkError {
    /// The error in words.
    pub open spec fn spec_message(self) -> Seq<char> {
        match self {
            NetworkError::Io(reason) => "IO error: "@ + reason@,
            NetworkError::InvalidPacket => "Invalid packet format"@,
            NetworkError::ClientLimitReached => "Client limit reached"@,
            NetworkError::IpLimitReached => "IP limit reached"@,
            NetworkError::MaintenanceMode => "Maintenance mode enabled"@,
            NetworkError::Unauthorized => "Unauthorized"@,
        }
    }

    /// The error in words.
    pub fn message(&self) -> (text: String)
        ensures
            text@ == self.spec_message(),
    {
        match self {
            NetworkError::Io(reason) => "IO error: ".to_owned().concat(reason.as_str()),
            NetworkError::InvalidPacket => "Invalid packet format".to_owned(),
            NetworkError::ClientLimitReached => "Client limit reached".to_owned(),
            NetworkError::IpLimitReached => "IP limit reached".to_owned(),
            NetworkError::MaintenanceMode => "Maintenance mode enabled".to_owned(),
            NetworkError::Unauthorized => "Unauthorized".to_owned(),
        }
    }
}

/// Every error has its own words, and the one with a reason tells it.
pub proof fn law_errors_are_told(reason: String)
    ensures
        NetworkError::Io(reason).spec_message() == "IO error: "@ + reason@,
        NetworkError::InvalidPacket.spec_message() == "Invalid packet format"@,
        NetworkError::ClientLimitReached.spec_message() == "Client limit reached"@,
        NetworkError::IpLimitReached.spec_message() == "IP limit reached"@,
        NetworkError::MaintenanceMode.spec_message() == "Maintenance mode enabled"@,
        NetworkError::Unauthorized.spec_message() == "Unauthorized"@,
{
}

} // verus!
