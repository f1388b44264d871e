//! A connected client and its activity.

use vstd::prelude::*;

use crate::addr::SocketAddr;
use crate::clock::MonotonicClock;
use crate::net::constants::CLIENT_TIMEOUT;

verus! {

/// Longest time span that is measured from one reference, in milliseconds. Longer spans start
/// over from a new reference.
pub const MAX_ELAPSED_MS: u64 = 18_446_744_073_709_551;

/// What is known of a client. Times are milliseconds.
pub struct ClientState {
    /// The address the client sends from.
    pub remote_ep: Option<SocketAddr>,
    /// The clock that times are read from.
    pub clock: MonotonicClock,
    /// Clock reading from which times are measured.
    pub reference: u64,
    /// Time of the last packet, measured from the reference.
    pub last_receive: u64,
    pub timeout: u64,
    /// How often a new reference had to be taken.
    pub resets: u64,
}

impl ClientState {
    /// A client that has just been heard of, when `clock` read `now`.
    pub open spec fn fresh(timeout_secs: u64, clock: MonotonicClock, now: u64) -> ClientState {
        ClientState {
            remote_ep: None,
            clock,
            reference: now,
            last_receive: 0,
            timeout: timeout_ms_of(timeout_secs),
            resets: 0,
        }
    }

    /// Whether the reference is still recent enough for the clock reading `now`.
    pub open spec fn in_range(self, now: u64) -> bool {
        now - self.reference < MAX_ELAPSED_MS
    }

    /// Time since the reference. It starts over at 0 when the reference is too old.
    pub open spec fn elapsed(self, now: u64) -> u64 {
        if now >= self.reference && self.in_range(now) {
            (now - self.reference) as u64
        } else {
            0
        }
    }

    /// The client after its time has been measured: with a new reference if the old one was too
    /// old.
    pub open spec fn measured(self, now: u64) -> ClientState {
        if self.in_range(now) {
            self
        } else {
            ClientState {
                reference: now,
                last_receive: 0,
                resets: self.resets.wrapping_add(1),
                ..self
            }
        }
    }

    /// The client after a packet from it.
    pub open spec fn heard(self, now: u64) -> ClientState {
        ClientState { last_receive: self.elapsed(now), ..self.measured(now) }
    }

    /// Whether nothing has been received for the timeout. A client whose reference starts over
    /// is given another period.
    pub open spec fn timed_out(self, now: u64) -> bool {
        if self.elapsed(now) < self.last_receive {
            self.last_receive == u64::MAX
        } else {
            self.elapsed(now) - self.last_receive >= self.timeout
        }
    }

    /// Time since the last packet.
    pub open spec fn silent_for(self, now: u64) -> u64 {
        if self.elapsed(now) >= self.last_receive {
            (self.elapsed(now) - self.last_receive) as u64
        } else {
            0
        }
    }

    /// Time that is left until the timeout.
    pub open spec fn time_left(self, now: u64) -> Option<u64> {
        let after = self.measured(now);
        if self.timed_out(now) || after.silent_for(now) >= self.timeout {
            None
        } else {
            Some((self.timeout - after.silent_for(now)) as u64)
        }
    }
}

/// Seconds in milliseconds, with the largest number for what does not fit.
pub open spec fn timeout_ms_of(timeout_secs: u64) -> u64 {
    if timeout_secs * 1000 > u64::MAX {
        u64::MAX
    } else {
        (timeout_secs * 1000) as u64
    }
}

/// A connected client.
#[derive(Clone, Copy)]
pub struct TunnelClient {
    /// The address from which the client sends packets.
    pub remote_ep: Option<SocketAddr>,
    last_receive_ms: u64,
    reference_ms: u64,
    clock: MonotonicClock,
    timeout_ms: u64,
    overflow_resets: u64,
}

impl View for TunnelClient {
    type V = ClientState;

    closed spec fn view(&self) -> ClientState {
        ClientState {
            remote_ep: self.remote_ep,
            clock: self.clock,
            reference: self.reference_ms,
            last_receive: self.last_receive_ms,
            timeout: self.timeout_ms,
            resets: self.overflow_resets,
        }
    }
}

impl Default for TunnelClient {
    /// A client with the default timeout.
    fn default() -> (client: Self)
        ensures
            client@ == ClientState::fresh(CLIENT_TIMEOUT, client@.clock, 0),
    {
        TunnelClient::new()
    }
}

impl TunnelClient {
    /// A client with the default timeout of 30 seconds.
    pub fn new() -> (client: Self)
        ensures
            client@ == ClientState::fresh(CLIENT_TIMEOUT, client@.clock, 0),
    {
        TunnelClient::with_timeout(CLIENT_TIMEOUT)
    }

    /// A client with the given timeout in seconds.
    pub fn with_timeout(timeout_secs: u64) -> (client: Self)
        ensures
            client@ == ClientState::fresh(timeout_secs, client@.clock, 0),
    {
        TunnelClient::with_clock(timeout_secs, MonotonicClock::start(), 0)
    }

    /// A client with the given timeout in seconds, heard of when `clock` read `now`.
    pub fn with_clock(timeout_secs: u64, clock: MonotonicClock, now: u64) -> (client: Self)
        ensures
            client@ == ClientState::fresh(timeout_secs, clock, now),
    {
        TunnelClient {
            remote_ep: None,
            last_receive_ms: 0,
            reference_ms: now,
            clock,
            timeout_ms: if timeout_secs > u64::MAX / 1000 {
                u64::MAX
            } else {
                timeout_secs * 1000
            },
            overflow_resets: 0,
        }
    }

    /// Time since the reference with the clock at `now`, taking a new reference if need be.
    fn safe_elapsed_millis_at(&mut self, now: u64) -> (elapsed: u64)
        ensures
            elapsed == old(self)@.elapsed(now),
            final(self)@ == old(self)@.measured(now),
    {
        let elapsed: u64 = now.saturating_sub(self.reference_ms);
        if elapsed < MAX_ELAPSED_MS {
            elapsed
        } else {
            self.handle_time_overflow(now)
        }
    }

    /// Takes a new reference.
    fn handle_time_overflow(&mut self, now: u64) -> (elapsed: u64)
        ensures
            elapsed == 0,
            final(self)@ == (ClientState {
                reference: now,
                last_receive: 0,
                resets: old(self)@.resets.wrapping_add(1),
                ..old(self)@
            }),
    {
        self.reference_ms = now;
        self.last_receive_ms = 0;
        self.overflow_resets = self.overflow_resets.wrapping_add(1);
        0
    }

    /// Records a packet from the client, with the clock at `now`.
    pub fn update_last_receive_at(&mut self, now: u64)
        ensures
            final(self)@ == old(self)@.heard(now),
    {
        let elapsed: u64 = self.safe_elapsed_millis_at(now);
        self.last_receive_ms = elapsed;
    }

    /// Records a packet from the client.
    pub fn update_last_receive(&mut self)
        ensures
            exists|at: std::time::Instant|
                final(self)@ == old(self)@.heard(#[trigger] old(self)@.clock.reading(at)),
    {
        let now: u64 = self.clock.now_ms();
        self.update_last_receive_at(now)
    }

    /// Whether the client has timed out, with the clock at `now`.
    pub fn is_timed_out_at(&mut self, now: u64) -> (timed_out: bool)
        ensures
            timed_out == old(self)@.timed_out(now),
            final(self)@ == old(self)@.measured(now),
    {
        let last_ms: u64 = self.last_receive_ms;
        let now_ms: u64 = self.safe_elapsed_millis_at(now);
        if now_ms < last_ms {
            return last_ms == u64::MAX;
        }
        now_ms - last_ms >= self.timeout_ms
    }

    /// Whether the client has timed out.
    pub fn is_timed_out(&mut self) -> (timed_out: bool)
        ensures
            exists|at: std::time::Instant|
                ({
                    let now = #[trigger] old(self)@.clock.reading(at);
                    &&& timed_out == old(self)@.timed_out(now)
                    &&& final(self)@ == old(self)@.measured(now)
                }),
    {
        let now: u64 = self.clock.now_ms();
        self.is_timed_out_at(now)
    }

    /// The address of the client.
    pub fn endpoint(&self) -> (addr: Option<SocketAddr>)
        ensures
            addr == self@.remote_ep,
    {
        self.remote_ep
    }

    /// Sets the address of the client.
    pub fn set_endpoint(&mut self, addr: SocketAddr)
        ensures
            final(self)@ == (ClientState { remote_ep: Some(addr), ..old(self)@ }),
    {
        self.remote_ep = Some(addr);
    }

    /// Milliseconds since the last packet, with the clock at `now`.
    pub fn time_since_last_receive_at(&mut self, now: u64) -> (ms: u64)
        ensures
            ms == old(self)@.silent_for(now),
            final(self)@ == old(self)@.measured(now),
    {
        let last_ms: u64 = self.last_receive_ms;
        let now_ms: u64 = self.safe_elapsed_millis_at(now);
        if now_ms >= last_ms {
            now_ms - last_ms
        } else {
            0
        }
    }

    /// Milliseconds since the last packet.
    pub fn time_since_last_receive(&mut self) -> (ms: u64)
        ensures
            exists|at: std::time::Instant|
                ({
                    let now = #[trigger] old(self)@.clock.reading(at);
                    &&& ms == old(self)@.silent_for(now)
                    &&& final(self)@ == old(self)@.measured(now)
                }),
    {
        let now: u64 = self.clock.now_ms();
        self.time_since_last_receive_at(now)
    }

    /// Milliseconds until the timeout, with the clock at `now`; `None` once it has passed.
    pub fn time_until_timeout_at(&mut self, now: u64) -> (ms: Option<u64>)
        ensures
            ms == old(self)@.time_left(now),
            final(self)@ == old(self)@.measured(now),
    {
        if self.is_timed_out_at(now) {
            None
        } else {
            let elapsed: u64 = self.time_since_last_receive_at(now);
            if elapsed >= self.timeout_ms {
                None
            } else {
                Some(self.timeout_ms - elapsed)
            }
        }
    }

    /// Milliseconds until the timeout; `None` once it has passed.
    pub fn time_until_timeout(&mut self) -> (ms: Option<u64>)
        ensures
            exists|at: std::time::Instant|
                ({
                    let now = #[trigger] old(self)@.clock.reading(at);
                    &&& ms == old(self)@.time_left(now)
                    &&& final(self)@ == old(self)@.measured(now)
                }),
    {
        let now: u64 = self.clock.now_ms();
        self.time_until_timeout_at(now)
    }

    /// Whether a new time reference had to be taken.
    pub fn has_time_resets(&self) -> (yes: bool)
        ensures
            yes == (self@.resets > 0),
    {
        self.overflow_resets > 0
    }

    /// How often a new time reference had to be taken.
    pub fn reset_count(&self) -> (n: u64)
        ensures
            n == self@.resets,
    {
        self.overflow_resets
    }

    /// The timeout in milliseconds.
    pub fn timeout_duration(&self) -> (ms: u64)
        ensures
            ms == self@.timeout,
    {
        self.timeout_ms
    }

    /// Gives the client a fresh timeout period.
    pub fn reset_timeout(&mut self)
        ensures
            exists|at: std::time::Instant|
                final(self)@ == old(self)@.heard(#[trigger] old(self)@.clock.reading(at)),
    {
        self.update_last_receive()
    }
}

/// What is known of each client of a table.
pub open spec fn states<K>(clients: Map<K, TunnelClient>) -> Map<K, ClientState> {
    clients.map_values(|client: TunnelClient| client@)
}

/// Adding a client adds its state.
pub proof fn lemma_states_insert<K>(clients: Map<K, TunnelClient>, key: K, client: TunnelClient)
    ensures
        states(clients.insert(key, client)) == states(clients).insert(key, client@),
{
    assert(states(clients.insert(key, client)) =~= states(clients).insert(key, client@));
}

/// Removing a client removes its state.
pub proof fn lemma_states_remove<K>(clients: Map<K, TunnelClient>, key: K)
    ensures
        states(clients.remove(key)) == states(clients).remove(key),
{
    assert(states(clients.remove(key)) =~= states(clients).remove(key));
}

/// Every client has a state.
pub proof fn lemma_states_dom<K>(clients: Map<K, TunnelClient>)
    ensures
        states(clients).dom() == clients.dom(),
{
    assert(states(clients).dom() =~= clients.dom());
}

/// The clients that have not timed out at `now`, after their times have been measured.
pub open spec fn survivors<K>(clients: Map<K, ClientState>, now: u64) -> Map<K, ClientState> {
    Map::new(
        |key: K| clients.contains_key(key) && !clients[key].timed_out(now),
        |key: K| clients[key].measured(now),
    )
}

/// `order` names every client that has timed out at `now` once.
pub open spec fn is_expired_list<K>(
    order: Seq<K>,
    clients: Map<K, ClientState>,
    now: u64,
) -> bool {
    &&& order.no_duplicates()
    &&& forall|id: K| #[trigger]
        order.contains(id) <==> clients.contains_key(id) && clients[id].timed_out(now)
}

/// `id` is among the first `n` entries of a listing.
pub open spec fn listed_before<K>(listed: Seq<(K, TunnelClient)>, n: int, id: K) -> bool {
    exists|j: int| 0 <= j < n && (#[trigger] listed[j]).0 == id
}

/// A client that has just been heard is timed out only if its timeout is 0.
pub proof fn law_heard_client_is_alive(client: ClientState, now: u64)
    requires
        client.timeout > 0,
        client.reference <= now,
    ensures
        !client.heard(now).timed_out(now),
{
}

/// A client times out exactly when the timeout has passed since it was last heard, and it has
/// time left exactly until then.
pub proof fn law_timeout_after_silence(client: ClientState, heard_at: u64, now: u64)
    requires
        client.reference <= heard_at <= now,
        client.in_range(now),
    ensures
        client.heard(heard_at).timed_out(now) <==> now - heard_at >= client.timeout,
        client.heard(heard_at).time_left(now) is Some <==> now - heard_at < client.timeout,
        client.heard(heard_at).silent_for(now) == now - heard_at,
{
}

/// Time that is left and time that has passed add up to the timeout.
pub proof fn law_time_left_complements_silence(client: ClientState, now: u64)
    requires
        client.in_range(now),
    ensures
        client.time_left(now) matches Some(left) ==> left + client.silent_for(now)
            == client.timeout,
{
}

/// A new client has no address yet, was heard of just now, and times out after so many seconds, as
/// milliseconds if they fit.
pub proof fn law_new_client_was_just_heard(timeout_secs: u64, clock: MonotonicClock, now: u64)
    ensures
        ({
            let client = ClientState::fresh(timeout_secs, clock, now);
            &&& client.remote_ep is None
            &&& client.clock == clock
            &&& client.reference == now && client.last_receive == 0
            &&& client.resets == 0
            &&& timeout_secs <= 18_446_744_073_709_551 ==> client.timeout == 1000 * timeout_secs
            &&& timeout_secs > 18_446_744_073_709_551 ==> client.timeout == u64::MAX
            &&& client.silent_for(now) == 0
        }),
{
}

/// Hearing a client records how long after its reference that was. The reference, the address and
/// the timeout stay, as long as the reference is not too old.
pub proof fn law_hearing_records_the_time(client: ClientState, now: u64)
    requires
        client.reference <= now,
    ensures
        now - client.reference < 18_446_744_073_709_551 ==> client.heard(now) == (ClientState {
            last_receive: (now - client.reference) as u64,
            ..client
        }),
        now - client.reference >= 18_446_744_073_709_551 ==> client.heard(now) == (ClientState {
            reference: now,
            last_receive: 0,
            resets: client.resets.wrapping_add(1),
            ..client
        }),
        client.heard(now).silent_for(now) == 0,
{
}

/// As long as its reference is not too old, a client has timed out exactly if its timeout has
/// passed since it was last heard, and it has exactly the rest of the timeout left.
pub proof fn law_timeout_counts_from_the_last_packet(client: ClientState, now: u64)
    requires
        client.reference + client.last_receive <= now,
        now - client.reference < 18_446_744_073_709_551,
    ensures
        client.timed_out(now) <==> now >= client.reference + client.last_receive + client.timeout,
        client.silent_for(now) == now - client.reference - client.last_receive,
        client.time_left(now) == if now >= client.reference + client.last_receive + client.timeout {
            None
        } else {
            Some((client.reference + client.last_receive + client.timeout - now) as u64)
        },
        client.measured(now) == client,
{
}

/// A reference that is too old is replaced by the time at which that is found out, and the client
/// is given another period; it is counted how often that happens.
pub proof fn law_old_references_are_replaced(client: ClientState, now: u64)
    requires
        now >= client.reference + 18_446_744_073_709_551,
    ensures
        client.measured(now) == (ClientState {
            reference: now,
            last_receive: 0,
            resets: client.resets.wrapping_add(1),
            ..client
        }),
        client.elapsed(now) == 0,
        0 < client.timeout && client.last_receive < u64::MAX ==> (client.timed_out(now)
            ==> client.timeout == 0),
{
}

/// What survives a cleanup is exactly the clients that have not timed out, and each of those that
/// have is named once.
pub proof fn law_survivors_have_not_timed_out<K>(
    clients: Map<K, ClientState>,
    order: Seq<K>,
    now: u64,
    id: K,
)
    ensures
        survivors(clients, now).contains_key(id) <==> clients.contains_key(id)
            && !clients[id].timed_out(now),
        survivors(clients, now).contains_key(id) ==> survivors(clients, now)[id]
            == clients[id].measured(now),
        is_expired_list(order, clients, now) ==> (order.contains(id) <==> clients.contains_key(id)
            && clients[id].timed_out(now)),
        is_expired_list(order, clients, now) ==> order.no_duplicates(),
{
}

/// If the time seems to be before the last packet, the client has not been silent, and has its
/// whole timeout left.
pub proof fn law_time_before_the_last_packet(client: ClientState, now: u64)
    requires
        now < client.reference + client.last_receive,
        client.last_receive < 18_446_744_073_709_551,
        client.reference + 18_446_744_073_709_551 > now,
    ensures
        client.silent_for(now) == 0,
        0 < client.timeout ==> !client.timed_out(now),
        client.time_left(now) == if client.timeout == 0 {
            None
        } else {
            Some(client.timeout)
        },
{
}

/// A client that has timed out has no time left, and what is left to any other is never nothing
/// and never more than its timeout.
pub proof fn law_time_left_is_within_the_timeout(client: ClientState, now: u64)
    ensures
        client.timed_out(now) ==> client.time_left(now) is None,
        client.time_left(now) matches Some(left) ==> 0 < left <= client.timeout,
{
}

} // verus!
