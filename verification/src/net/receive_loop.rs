//! What the receive loop of a service is told of, and what it does next.

use vstd::prelude::*;

verus! {

/// What the receive loop is told of.
#[derive(Debug, Clone, Copy, PartialEq, Eq, Structural)]
pub enum ReceiveEvent {
    /// The service is to be shut down.
    Shutdown,
    /// A packet of this size has arrived.
    Packet(usize),
    /// One of the places for packets in process was asked for, and was free or not.
    Permit(bool),
    /// Receiving failed.
    Failed,
    /// Nothing has arrived for a while.
    TimedOut,
}

/// What the receive loop does next.
#[derive(Debug, Clone, Copy, PartialEq, Eq, Structural)]
pub enum ReceiveAction {
    /// Stop all tasks of the service and leave.
    Stop,
    /// Ask for one of the places for packets in process.
    AskPermit,
    /// Process the packet.
    Process,
    /// Wait for the next packet.
    Wait,
}

} // verus!
