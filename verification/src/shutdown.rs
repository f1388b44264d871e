//! Graceful shutdown of the services.

use vstd::prelude::*;

verus! {

/// Coordinates graceful shutdown across the services.
///
/// Late subscribers, who come after the shutdown, see it at once. Once the coordinator is gone,
/// every receiver is woken.
pub struct ShutdownCoordinator {
    shutting_down: bool,
}

impl View for ShutdownCoordinator {
    type V = bool;

    closed spec fn view(&self) -> bool {
        self.shutting_down
    }
}

/// What a receiver last saw of its coordinator.
pub struct ShutdownReceiver {
    woken: bool,
}

impl View for ShutdownReceiver {
    type V = bool;

    closed spec fn view(&self) -> bool {
        self.woken
    }
}

impl ShutdownCoordinator {
    /// A coordinator that has not shut down.
    pub fn new() -> (coordinator: Self)
        ensures
            !coordinator@,
    {
        ShutdownCoordinator { shutting_down: false }
    }

    /// A new receiver, which sees at once whether there has been a shutdown.
    pub fn subscribe(&self) -> (receiver: ShutdownReceiver)
        ensures
            receiver@ == self@,
    {
        ShutdownReceiver { woken: self.shutting_down }
    }

    /// Triggers the shutdown. Safe to call several times: only the first call fires, and comes
    /// back with whether it did.
    pub fn shutdown(&mut self) -> (fires: bool)
        ensures
            final(self)@,
            fires == !old(self)@,
    {
        let fires = !self.shutting_down;
        self.shutting_down = true;
        fires
    }

    /// Whether there has been a shutdown.
    pub fn is_shutting_down(&self) -> (yes: bool)
        ensures
            yes == self@,
    {
        self.shutting_down
    }
}

impl ShutdownReceiver {
    /// Looks at the coordinator, or finds it gone. Comes back with whether the receiver stops
    /// waiting; once it does, it never waits again.
    pub fn recv(&mut self, coordinator: Option<&ShutdownCoordinator>) -> (woken: bool)
        ensures
            woken == final(self)@,
            final(self)@ == (old(self)@ || match coordinator {
                Some(coordinator) => coordinator@,
                None => true,
            }),
    {
        match coordinator {
            Some(coordinator) => {
                if coordinator.is_shutting_down() {
                    self.woken = true;
                }
            },
            None => {
                self.woken = true;
            },
        }
        self.woken
    }
}

} // verus!
