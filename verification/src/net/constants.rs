//! Constants that the network services share.

use vstd::prelude::*;

verus! {

/// Master server announce interval in milliseconds.
pub const MASTER_ANNOUNCE_INTERVAL: u64 = 60_000;

/// Seconds in which one command is accepted.
pub const COMMAND_RATE_LIMIT: u64 = 60;

/// Client timeout in seconds.
pub const CLIENT_TIMEOUT: u64 = 30;

/// Identifier of a peer-to-peer request.
pub const STUN_ID: i16 = 26262;

} // verus!
