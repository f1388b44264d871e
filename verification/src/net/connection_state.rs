//! Which client is connected from which address, and how many clients each address has.

use vstd::prelude::*;

use crate::addr::{IpAddr, IpKey};
use crate::clock::{unix_ms, unix_ms_at};
use crate::table::{lists, Table};

verus! {

/// Connections by client and by address.
pub struct Connections {
    /// Number of clients connected from each address.
    pub counts: Map<IpKey, usize>,
    /// The address of each client.
    pub clients: Map<u32, IpKey>,
    /// Unix time in milliseconds at which each address was last active.
    pub activity: Map<IpKey, u64>,
}

/// The clients that are connected from an address.
pub open spec fn clients_at(clients: Map<u32, IpKey>, ip: IpKey) -> Set<u32> {
    clients.dom().filter(|client: u32| clients[client] == ip)
}

impl Connections {
    /// Number of clients connected from `ip`.
    pub open spec fn count(self, ip: IpKey) -> usize {
        if self.counts.contains_key(ip) {
            self.counts[ip]
        } else {
            0
        }
    }

    /// The counts are those of the connected clients, and every counted address has a time of
    /// activity.
    pub open spec fn consistent(self) -> bool {
        &&& self.clients.dom().finite()
        &&& self.counts.dom().finite()
        &&& self.activity.dom() == self.counts.dom()
        &&& forall|ip: IpKey| #[trigger]
            self.count(ip) == clients_at(self.clients, ip).len()
        &&& forall|client: u32| #[trigger]
            self.clients.contains_key(client) ==> self.counts.contains_key(self.clients[client])
    }

    /// `ip` has been active at `now`.
    pub open spec fn active(self, ip: IpKey, now: u64) -> Connections {
        Connections { activity: self.activity.insert(ip, now), ..self }
    }

    /// One more client is counted at `ip`.
    pub open spec fn reserved(self, ip: IpKey) -> Connections {
        Connections { counts: self.counts.insert(ip, (self.count(ip) + 1) as usize), ..self }
    }

    /// One client less is counted at `ip`; with the last one the address is forgotten.
    pub open spec fn released(self, ip: IpKey) -> Connections {
        if !self.counts.contains_key(ip) {
            self
        } else if self.counts[ip] == 1 {
            Connections {
                counts: self.counts.remove(ip),
                activity: self.activity.remove(ip),
                ..self
            }
        } else {
            Connections { counts: self.counts.insert(ip, self.counts[ip].wrapping_sub(1)), ..self }
        }
    }

    /// The state after an attempt to connect `client` from `ip`, at most `limit` clients being
    /// allowed there.
    pub open spec fn after_add(self, client: u32, ip: IpKey, limit: usize, now: u64) -> Connections {
        let state = self.active(ip, now);
        if self.count(ip) >= limit {
            Connections { counts: self.counts.insert(ip, self.count(ip)), ..state }
        } else {
            let state = state.reserved(ip);
            Connections { clients: state.clients.insert(client, ip), ..state }
        }
    }

    /// Whether `client` may be at `ip`, at most `limit` clients being allowed there.
    pub open spec fn accepts(self, client: u32, ip: IpKey, limit: usize) -> bool {
        self.count(ip) < limit || (self.clients.contains_key(client) && self.clients[client] == ip)
    }

    /// The state after an attempt to move `client` to `ip`: the place at the new address is taken
    /// before the one at the old address is given up.
    pub open spec fn after_update(
        self,
        client: u32,
        ip: IpKey,
        limit: usize,
        now: u64,
    ) -> Connections {
        if !self.clients.contains_key(client) {
            self.after_add(client, ip, limit, now)
        } else if self.clients[client] == ip {
            self.active(ip, now)
        } else if self.count(ip) >= limit {
            let state = self.active(ip, now);
            Connections { counts: self.counts.insert(ip, self.count(ip)), ..state }
        } else {
            let state = self.active(ip, now).reserved(ip).released(self.clients[client]);
            Connections { clients: state.clients.insert(client, ip), ..state }
        }
    }

    /// The state after `client` has disconnected.
    pub open spec fn after_remove(self, client: u32) -> Connections {
        if self.clients.contains_key(client) {
            Connections {
                clients: self.clients.remove(client),
                ..self.released(self.clients[client])
            }
        } else {
            self
        }
    }

    /// Whether the address is forgotten at `now`: counted, without clients, and without activity
    /// for longer than `timeout_ms`.
    pub open spec fn stale(self, ip: IpKey, timeout_ms: u64, now: u64) -> bool {
        &&& self.activity.contains_key(ip)
        &&& now - self.activity[ip] > timeout_ms
        &&& self.counts.contains_key(ip)
        &&& self.counts[ip] == 0
    }

    /// The state after stale addresses have been forgotten.
    pub open spec fn after_cleanup(self, timeout_ms: u64, now: u64) -> Connections {
        let stale = Set::new(|ip: IpKey| self.stale(ip, timeout_ms, now));
        Connections {
            counts: self.counts.remove_keys(stale),
            activity: self.activity.remove_keys(stale),
            ..self
        }
    }
}

/// `ip` is among the first `n` entries of a listing.
spec fn seen(listed: Seq<(IpKey, u64)>, n: int, ip: IpKey) -> bool {
    exists|j: int| 0 <= j < n && (#[trigger] listed[j]).0 == ip
}

/// Connection tracking for a limit on the clients of an address.
pub struct ConnectionState {
    ip_connections: Table<IpKey, usize>,
    client_to_ip: Table<u32, IpKey>,
    ip_last_activity: Table<IpKey, u64>,
}

impl View for ConnectionState {
    type V = Connections;

    closed spec fn view(&self) -> Connections {
        Connections {
            counts: self.ip_connections@,
            clients: self.client_to_ip@,
            activity: self.ip_last_activity@,
        }
    }
}

impl ConnectionState {
    /// No client is connected.
    pub fn new() -> (state: Self)
        ensures
            state@.consistent(),
            state@.counts == Map::<IpKey, usize>::empty(),
            state@.clients == Map::<u32, IpKey>::empty(),
            state@.activity == Map::<IpKey, u64>::empty(),
    {
        let state = ConnectionState {
            ip_connections: Table::with_capacity(1024),
            client_to_ip: Table::with_capacity(2048),
            ip_last_activity: Table::with_capacity(1024),
        };
        assert(state@.activity.dom() =~= state@.counts.dom());
        assert forall|ip: IpKey| #[trigger] state@.count(ip) == clients_at(
            state@.clients,
            ip,
        ).len() by {
            assert(clients_at(state@.clients, ip) =~= Set::<u32>::empty());
        }
        state
    }

    /// Records that `ip` was active at Unix time `now` in milliseconds.
    pub fn update_activity_at(&mut self, ip: IpAddr, now: u64)
        ensures
            final(self)@ == old(self)@.active(ip.spec_key(), now),
    {
        self.ip_last_activity.insert(ip.key(), now);
    }

    /// Takes one of at most `limit` places at `ip`.
    fn reserve(&mut self, ip: IpAddr, limit: usize) -> (reserved: bool)
        ensures
            reserved == (old(self)@.count(ip.spec_key()) < limit),
            reserved ==> final(self)@ == old(self)@.reserved(ip.spec_key()),
            !reserved ==> final(self)@ == (Connections {
                counts: old(self)@.counts.insert(ip.spec_key(), old(self)@.count(ip.spec_key())),
                ..old(self)@
            }),
    {
        let key = ip.key();
        let current: usize = match self.ip_connections.get(&key) {
            Some(count) => count,
            None => 0,
        };
        if current >= limit {
            self.ip_connections.insert(key, current);
            false
        } else {
            self.ip_connections.insert(key, current + 1);
            true
        }
    }

    /// Gives up a place at `ip`.
    fn release(&mut self, key: IpKey)
        ensures
            final(self)@ == old(self)@.released(key),
    {
        if let Some(prev) = self.ip_connections.get(&key) {
            if prev == 1 {
                self.ip_connections.remove(&key);
                self.ip_last_activity.remove(&key);
            } else {
                self.ip_connections.insert(key, prev.wrapping_sub(1));
            }
        }
    }

    /// Connects `client_id` from `ip` at Unix time `now` in milliseconds, unless `limit` clients
    /// are connected from there already.
    pub fn try_add_connection_at(
        &mut self,
        client_id: u32,
        ip: IpAddr,
        limit: usize,
        now: u64,
    ) -> (added: bool)
        ensures
            added == (old(self)@.count(ip.spec_key()) < limit),
            final(self)@ == old(self)@.after_add(client_id, ip.spec_key(), limit, now),
    {
        self.update_activity_at(ip, now);
        if !self.reserve(ip, limit) {
            return false;
        }
        self.client_to_ip.insert(client_id, ip.key());
        true
    }

    /// Connects `client_id` from `ip`, unless `limit` clients are connected from there already.
    pub fn try_add_connection(&mut self, client_id: u32, ip: IpAddr, limit: usize) -> (added: bool)
        ensures
            added == (old(self)@.count(ip.spec_key()) < limit),
            exists|time: std::time::SystemTime|
                final(self)@ == old(self)@.after_add(
                    client_id,
                    ip.spec_key(),
                    limit,
                    #[trigger] unix_ms_at(time),
                ),
    {
        let now: u64 = unix_ms();
        self.try_add_connection_at(client_id, ip, limit, now)
    }

    /// Moves `client_id` to `new_ip` at Unix time `now` in milliseconds, unless `limit` clients
    /// are connected from there already.
    pub fn update_connection_at(
        &mut self,
        client_id: u32,
        new_ip: IpAddr,
        limit: usize,
        now: u64,
    ) -> (accepted: bool)
        ensures
            accepted == old(self)@.accepts(client_id, new_ip.spec_key(), limit),
            final(self)@ == old(self)@.after_update(client_id, new_ip.spec_key(), limit, now),
    {
        self.update_activity_at(new_ip, now);
        match self.client_to_ip.get(&client_id) {
            Some(old_key) => {
                let new_key = new_ip.key();
                if old_key.0 == new_key.0 && old_key.1 == new_key.1 {
                    return true;
                }
                if !self.reserve(new_ip, limit) {
                    return false;
                }
                self.release(old_key);
                self.client_to_ip.insert(client_id, new_key);
                true
            },
            None => {
                let added = self.try_add_connection_at(client_id, new_ip, limit, now);
                proof {
                    let ip = new_ip.spec_key();
                    assert(old(self)@.activity.insert(ip, now).insert(ip, now)
                        =~= old(self)@.activity.insert(ip, now));
                }
                added
            },
        }
    }

    /// Moves `client_id` to `new_ip`, unless `limit` clients are connected from there already.
    pub fn update_connection(
        &mut self,
        client_id: u32,
        new_ip: IpAddr,
        limit: usize,
    ) -> (accepted: bool)
        ensures
            accepted == old(self)@.accepts(client_id, new_ip.spec_key(), limit),
            exists|time: std::time::SystemTime|
                final(self)@ == old(self)@.after_update(
                    client_id,
                    new_ip.spec_key(),
                    limit,
                    #[trigger] unix_ms_at(time),
                ),
    {
        let now: u64 = unix_ms();
        self.update_connection_at(client_id, new_ip, limit, now)
    }

    /// Disconnects `client_id`.
    pub fn remove_connection(&mut self, client_id: u32)
        ensures
            final(self)@ == old(self)@.after_remove(client_id),
    {
        if let Some(key) = self.client_to_ip.remove(&client_id) {
            self.release(key);
        } else {
            assert(self@.clients =~= old(self)@.clients);
        }
    }

    /// Number of clients connected from `ip`.
    pub fn get_ip_count(&self, ip: &IpAddr) -> (n: usize)
        ensures
            n == self@.count(ip.spec_key()),
    {
        match self.ip_connections.get(&ip.key()) {
            Some(count) => count,
            None => 0,
        }
    }

    /// Number of addresses that are counted.
    pub fn unique_ip_count(&self) -> (n: usize)
        ensures
            n == self@.counts.len(),
    {
        self.ip_connections.len()
    }

    /// Number of connected clients.
    pub fn total_connections(&self) -> (n: usize)
        ensures
            n == self@.clients.len(),
    {
        self.client_to_ip.len()
    }

    /// Forgets the addresses without clients that have not been active for `timeout_ms` at Unix
    /// time `now` in milliseconds.
    pub fn cleanup_stale_ips_at(&mut self, timeout_ms: u64, now: u64)
        ensures
            final(self)@ == old(self)@.after_cleanup(timeout_ms, now),
    {
        let ghost before = self@;
        let listed = self.ip_last_activity.entries();
        let mut i: usize = 0;
        while i < listed.len()
            invariant
                i <= listed.len(),
                lists(listed@, before.activity),
                self@.clients == before.clients,
                forall|ip: IpKey| #[trigger]
                    self@.counts.contains_key(ip) <==> before.counts.contains_key(ip) && !(
                    before.stale(ip, timeout_ms, now) && seen(listed@, i as int, ip)),
                forall|ip: IpKey| #[trigger]
                    self@.activity.contains_key(ip) <==> before.activity.contains_key(ip) && !(
                    before.stale(ip, timeout_ms, now) && seen(listed@, i as int, ip)),
                self@.counts.submap_of(before.counts),
                self@.activity.submap_of(before.activity),
            decreases listed.len() - i,
        {
            let (key, last) = listed[i];
            let ghost loop_start = self@;
            proof {
                assert(before.activity.contains_key(listed@[i as int].0));
                assert(!seen(listed@, i as int, key));
                assert(loop_start.activity.contains_key(key));
                assert(loop_start.counts.contains_key(key) == before.counts.contains_key(key));
            }
            if now.saturating_sub(last) > timeout_ms {
                if let Some(count) = self.ip_connections.get(&key) {
                    if count == 0 {
                        self.ip_connections.remove(&key);
                        self.ip_last_activity.remove(&key);
                    }
                }
            }
            i = i + 1;
            proof {
                assert forall|ip: IpKey| #[trigger]
                    seen(listed@, i as int, ip) == (ip == key || seen(listed@, i - 1, ip)) by {
                    assert(listed@[i - 1].0 == key);
                }
            }
        }
        proof {
            let after = before.after_cleanup(timeout_ms, now);
            assert forall|ip: IpKey| before.activity.contains_key(ip) implies #[trigger] seen(
                listed@,
                i as int,
                ip,
            ) by {
                assert(before.activity.contains_key(ip));
            }
            assert(self@.counts =~= after.counts);
            assert(self@.activity =~= after.activity);
        }
    }

    /// Forgets the addresses without clients that have not been active for `timeout_ms`.
    pub fn cleanup_stale_ips(&mut self, timeout_ms: u64)
        ensures
            exists|time: std::time::SystemTime|
                final(self)@ == old(self)@.after_cleanup(timeout_ms, #[trigger] unix_ms_at(time)),
    {
        let now: u64 = unix_ms();
        self.cleanup_stale_ips_at(timeout_ms, now)
    }
}

/// The clients at an address when `client` joins from `ip`.
proof fn lemma_join(clients: Map<u32, IpKey>, client: u32, ip: IpKey, at: IpKey)
    requires
        clients.dom().finite(),
        !clients.contains_key(client),
    ensures
        clients_at(clients.insert(client, ip), at).len() == clients_at(clients, at).len() + if at
            == ip {
            1int
        } else {
            0
        },
{
    let before = clients_at(clients, at);
    let after = clients_at(clients.insert(client, ip), at);
    if at == ip {
        assert(after =~= before.insert(client));
    } else {
        assert(after =~= before);
    }
}

/// The clients at an address when `client` leaves.
proof fn lemma_leave(clients: Map<u32, IpKey>, client: u32, at: IpKey)
    requires
        clients.dom().finite(),
        clients.contains_key(client),
    ensures
        clients_at(clients.remove(client), at).len() == clients_at(clients, at).len() - if at
            == clients[client] {
            1int
        } else {
            0
        },
{
    let before = clients_at(clients, at);
    let after = clients_at(clients.remove(client), at);
    if at == clients[client] {
        assert(after =~= before.remove(client));
    } else {
        assert(after =~= before);
    }
}

/// Connecting a new client keeps the counts consistent.
pub proof fn law_add_is_consistent(
    state: Connections,
    client: u32,
    ip: IpKey,
    limit: usize,
    now: u64,
)
    requires
        state.consistent(),
        !state.clients.contains_key(client),
    ensures
        state.after_add(client, ip, limit, now).consistent(),
{
    let after = state.after_add(client, ip, limit, now);
    assert(after.activity.dom() =~= after.counts.dom());
    assert forall|at: IpKey| #[trigger] after.count(at) == clients_at(
        after.clients,
        at,
    ).len() by {
        assert(state.count(at) == clients_at(state.clients, at).len());
        lemma_join(state.clients, client, ip, at);
    }
    assert forall|c: u32| #[trigger] after.clients.contains_key(c) implies after.counts.contains_key(
        after.clients[c],
    ) by {
        if state.clients.contains_key(c) {
            assert(state.counts.contains_key(state.clients[c]));
        }
    }
}

/// Disconnecting a client keeps the counts consistent.
pub proof fn law_remove_is_consistent(state: Connections, client: u32)
    requires
        state.consistent(),
    ensures
        state.after_remove(client).consistent(),
{
    let after = state.after_remove(client);
    if state.clients.contains_key(client) {
        let ip = state.clients[client];
        assert(state.count(ip) == clients_at(state.clients, ip).len());
        assert(clients_at(state.clients, ip).contains(client));
        assert(after.activity.dom() =~= after.counts.dom());
        assert forall|at: IpKey| #[trigger] after.count(at) == clients_at(
            after.clients,
            at,
        ).len() by {
            assert(state.count(at) == clients_at(state.clients, at).len());
            lemma_leave(state.clients, client, at);
        }
        assert forall|c: u32| #[trigger]
            after.clients.contains_key(c) implies after.counts.contains_key(after.clients[c]) by {
            assert(state.clients.contains_key(c));
            assert(state.counts.contains_key(state.clients[c]));
            if state.clients[c] == ip {
                assert(clients_at(after.clients, ip).contains(c));
                assert(after.count(ip) == clients_at(after.clients, ip).len());
            }
        }
    }
}

/// Moving a client keeps the counts consistent.
pub proof fn law_update_is_consistent(
    state: Connections,
    client: u32,
    ip: IpKey,
    limit: usize,
    now: u64,
)
    requires
        state.consistent(),
    ensures
        state.after_update(client, ip, limit, now).consistent(),
{
    let after = state.after_update(client, ip, limit, now);
    if !state.clients.contains_key(client) {
        law_add_is_consistent(state, client, ip, limit, now);
    } else {
        let from = state.clients[client];
        assert(state.counts.contains_key(from));
        assert(state.count(from) == clients_at(state.clients, from).len());
        assert(clients_at(state.clients, from).contains(client));
        assert(after.activity.dom() =~= after.counts.dom());
        assert forall|at: IpKey| #[trigger] after.count(at) == clients_at(
            after.clients,
            at,
        ).len() by {
            assert(state.count(at) == clients_at(state.clients, at).len());
            if state.accepts(client, ip, limit) && from != ip {
                let without = state.clients.remove(client);
                lemma_leave(state.clients, client, at);
                lemma_join(without, client, ip, at);
                assert(without.insert(client, ip) =~= state.clients.insert(client, ip));
            }
        }
        assert forall|c: u32| #[trigger]
            after.clients.contains_key(c) implies after.counts.contains_key(after.clients[c]) by {
            assert(state.clients.contains_key(c));
            assert(state.counts.contains_key(state.clients[c]));
            let at = after.clients[c];
            assert(clients_at(after.clients, at).contains(c));
            assert(after.count(at) == clients_at(after.clients, at).len());
        }
    }
}

/// Forgetting stale addresses keeps the counts consistent and disconnects nobody.
pub proof fn law_cleanup_is_consistent(state: Connections, timeout_ms: u64, now: u64)
    requires
        state.consistent(),
    ensures
        state.after_cleanup(timeout_ms, now).consistent(),
        state.after_cleanup(timeout_ms, now).clients == state.clients,
        forall|ip: IpKey| state.after_cleanup(timeout_ms, now).count(ip) == state.count(ip),
{
    let after = state.after_cleanup(timeout_ms, now);
    assert(after.activity.dom() =~= after.counts.dom());
    assert(after.counts.dom().subset_of(state.counts.dom()));
    vstd::set_lib::lemma_len_subset(after.counts.dom(), state.counts.dom());
    assert forall|c: u32| #[trigger] after.clients.contains_key(c) implies after.counts.contains_key(
        after.clients[c],
    ) by {
        let at = state.clients[c];
        assert(state.counts.contains_key(at));
        assert(clients_at(state.clients, at).contains(c));
        assert(state.count(at) == clients_at(state.clients, at).len());
    }
    assert forall|at: IpKey| #[trigger] after.count(at) == clients_at(
        after.clients,
        at,
    ).len() by {
        assert(state.count(at) == clients_at(state.clients, at).len());
    }
}

/// No address ever has more clients than its limit allows, if it had no more before.
pub proof fn law_limit_is_kept(
    state: Connections,
    client: u32,
    ip: IpKey,
    limit: usize,
    now: u64,
    other: IpKey,
)
    requires
        state.consistent(),
        state.count(other) <= limit,
    ensures
        state.after_update(client, ip, limit, now).count(other) <= limit,
        state.after_add(client, ip, limit, now).count(other) <= limit,
        state.after_remove(client).count(other) <= limit,
{
    if state.clients.contains_key(client) {
        let from = state.clients[client];
        assert(state.counts.contains_key(from));
        assert(state.count(from) == clients_at(state.clients, from).len());
        assert(clients_at(state.clients, from).contains(client));
        assert(clients_at(state.clients, from).len() > 0);
    }
}

/// Disconnecting a client right after it connected leaves every count and every other client as
/// they were.
pub proof fn law_remove_undoes_add(
    state: Connections,
    client: u32,
    ip: IpKey,
    limit: usize,
    now: u64,
)
    requires
        state.consistent(),
        !state.clients.contains_key(client),
        state.count(ip) < limit,
    ensures
        ({
            let after = state.after_add(client, ip, limit, now).after_remove(client);
            &&& after.clients == state.clients
            &&& forall|at: IpKey| after.count(at) == state.count(at)
        }),
{
    let after = state.after_add(client, ip, limit, now).after_remove(client);
    assert(after.clients =~= state.clients);
}

/// A client that connects is counted at its address if there is room for it, and is then connected
/// from there; otherwise nobody's connection changes. Either way the address was active now.
pub proof fn law_connections_are_counted(
    state: Connections,
    client: u32,
    ip: IpKey,
    limit: usize,
    now: u64,
    other: IpKey,
)
    ensures
        ({
            let after = state.after_add(client, ip, limit, now);
            &&& state.count(ip) < limit ==> after.count(ip) == state.count(ip) + 1 && after.clients
                == state.clients.insert(client, ip)
            &&& state.count(ip) >= limit ==> after.count(ip) == state.count(ip) && after.clients
                == state.clients
            &&& other != ip ==> after.count(other) == state.count(other)
            &&& after.counts.contains_key(ip)
            &&& after.activity == state.activity.insert(ip, now)
        }),
        state.count(ip) == if state.counts.contains_key(ip) {
            state.counts[ip]
        } else {
            0
        },
{
}

/// A client may be at an address if there is room for one more there, or if it is there already.
/// When it moves it is counted at the new address and no longer at the old one; when it may not,
/// it stays where it is.
pub proof fn law_moving_clients_are_counted(
    state: Connections,
    client: u32,
    ip: IpKey,
    limit: usize,
    now: u64,
    other: IpKey,
)
    requires
        state.consistent(),
        state.clients.contains_key(client),
    ensures
        ({
            let from = state.clients[client];
            let after = state.after_update(client, ip, limit, now);
            &&& state.accepts(client, ip, limit) <==> state.count(ip) < limit || from == ip
            &&& from == ip ==> after == (Connections {
                activity: state.activity.insert(ip, now),
                ..state
            })
            &&& from != ip && state.count(ip) < limit ==> {
                &&& after.clients == state.clients.insert(client, ip)
                &&& after.count(ip) == state.count(ip) + 1
                &&& after.count(from) == state.count(from) - 1
                &&& other != ip && other != from ==> after.count(other) == state.count(other)
                &&& after.activity[ip] == now
            }
            &&& from != ip && state.count(ip) >= limit ==> after.clients == state.clients
                && after.count(other) == state.count(other) && after.activity
                == state.activity.insert(ip, now)
        }),
{
    let from = state.clients[client];
    assert(state.counts.contains_key(from));
    assert(state.count(from) == clients_at(state.clients, from).len());
    assert(clients_at(state.clients, from).contains(client));
}

/// A client that is not connected yet is added when it moves.
pub proof fn law_new_clients_are_added(
    state: Connections,
    client: u32,
    ip: IpKey,
    limit: usize,
    now: u64,
)
    requires
        !state.clients.contains_key(client),
    ensures
        state.after_update(client, ip, limit, now) == state.after_add(client, ip, limit, now),
        state.accepts(client, ip, limit) <==> state.count(ip) < limit,
{
}

/// A client that disconnects is no longer counted at its address, which is forgotten with its last
/// client. Nobody else is affected; an unknown client changes nothing.
pub proof fn law_leaving_clients_are_uncounted(state: Connections, client: u32, other: IpKey)
    requires
        state.consistent(),
    ensures
        !state.clients.contains_key(client) ==> state.after_remove(client) == state,
        state.clients.contains_key(client) ==> {
            let from = state.clients[client];
            let after = state.after_remove(client);
            &&& after.clients == state.clients.remove(client)
            &&& after.count(from) == state.count(from) - 1
            &&& other != from ==> after.count(other) == state.count(other)
            &&& state.count(from) == 1 ==> !after.counts.contains_key(from)
                && !after.activity.contains_key(from)
            &&& state.count(from) > 1 ==> after.activity == state.activity
        },
{
    if state.clients.contains_key(client) {
        let from = state.clients[client];
        assert(state.counts.contains_key(from));
        assert(state.count(from) == clients_at(state.clients, from).len());
        assert(clients_at(state.clients, from).contains(client));
    }
}

/// An address is forgotten exactly if nobody is connected from it and it has not been active for
/// longer than the timeout.
pub proof fn law_stale_addresses_are_forgotten(
    state: Connections,
    timeout_ms: u64,
    now: u64,
    ip: IpKey,
)
    requires
        state.consistent(),
    ensures
        ({
            let after = state.after_cleanup(timeout_ms, now);
            let stale = state.counts.contains_key(ip) && state.counts[ip] == 0 && now
                > state.activity[ip] + timeout_ms;
            &&& after.counts.contains_key(ip) <==> state.counts.contains_key(ip) && !stale
            &&& after.activity.contains_key(ip) <==> state.activity.contains_key(ip) && !stale
            &&& after.counts.contains_key(ip) ==> after.counts[ip] == state.counts[ip]
            &&& after.activity.contains_key(ip) ==> after.activity[ip] == state.activity[ip]
            &&& after.clients == state.clients
        }),
{
    assert(state.activity.dom().contains(ip) <==> state.counts.dom().contains(ip));
}

/// Activity is recorded with its time, and changes nothing else.
pub proof fn law_activity_is_recorded(state: Connections, ip: IpKey, now: u64)
    ensures
        state.active(ip, now).activity == state.activity.insert(ip, now),
        state.active(ip, now).counts == state.counts,
        state.active(ip, now).clients == state.clients,
{
}

} // verus!
