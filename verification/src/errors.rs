//! Errors of the server.

use vstd::prelude::*;

verus! {

/// An error of the server.
#[derive(Debug)]
pub enum ServerError {
    /// Input or output failed, for the given reason.
    Io(String),
    /// The configuration is not accepted, for the given reason.
    Config(String),
    RateLimitExceeded,
    ServiceUnavailable,
    InvalidPacket,
    ClientTimeout,
    MaintenanceMode,
}

/// What the server's operations return.
pub type ServerResult<T> = core::result::Result<T, ServerError>;

impl ServerError {
    /// The error in words.
    pub open spec fn spec_message(self) -> Seq<char> {
        match self {
            ServerError::Io(reason) => "IO error: "@ + reason@,
            ServerError::Config(reason) => "Configuration error: "@ + reason@,
            ServerError::RateLimitExceeded => "Rate limit exceeded"@,
            ServerError::ServiceUnavailable => "Service unavailable"@,
            ServerError::InvalidPacket => "Invalid packet format"@,
            ServerError::ClientTimeout => "Client timeout"@,
            ServerError::MaintenanceMode => "Maintenance mode active"@,
        }
    }

    /// The error in words.
    pub fn message(&self) -> (text: String)
        ensures
            text@ == self.spec_message(),
    {
        match self {
            ServerError::Io(reason) => "IO error: ".to_owned().concat(reason.as_str()),
            ServerError::Config(reason) => "Configuration error: ".to_owned().concat(
                reason.as_str(),
            ),
            ServerError::RateLimitExceeded => "Rate limit exceeded".to_owned(),
            ServerError::ServiceUnavailable => "Service unavailable".to_owned(),
            ServerError::InvalidPacket => "Invalid packet format".to_owned(),
            ServerError::ClientTimeout => "Client timeout".to_owned(),
            ServerError::MaintenanceMode => "Maintenance mode active".to_owned(),
        }
    }
}

/// Every error has its own words, and those with a reason tell it.
pub proof fn law_errors_are_told(reason: String)
    ensures
        ServerError::Io(reason).spec_message() == "IO error: "@ + reason@,
        ServerError::Config(reason).spec_message() == "Configuration error: "@ + reason@,
        ServerError::RateLimitExceeded.spec_message() == "Rate limit exceeded"@,
        ServerError::ServiceUnavailable.spec_message() == "Service unavailable"@,
        ServerError::InvalidPacket.spec_message() == "Invalid packet format"@,
        ServerError::ClientTimeout.spec_message() == "Client timeout"@,
        ServerError::MaintenanceMode.spec_message() == "Maintenance mode active"@,
{
}

} // verus!
