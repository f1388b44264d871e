//! Addresses that are barred from sending commands after too many failed attempts.

use vstd::prelude::*;

use crate::addr::{IpAddr, IpKey};
use crate::clock::{unix_secs, unix_secs_at};
use crate::table::Table;

verus! {

/// Failed commands after which an address is blocked.
pub const MAX_FAILED_COMMANDS: usize = 3;

/// Seconds for which an address is blocked.
pub const COMMAND_BLOCK_DURATION_SECS: u64 = 3600;

/// Failed attempts of an address, and the Unix time in seconds until which it is blocked (0 if it
/// has never been).
pub type Attempts = (usize, u64);

/// Whether `ip` is blocked at `now`.
pub open spec fn blocked(list: Map<IpKey, Attempts>, ip: IpKey, now: u64) -> bool {
    list.contains_key(ip) && now < list[ip].1
}

/// The list after `ip` has been looked up at `now`: an expired block is lifted, and the attempts
/// that led to it are forgotten.
pub open spec fn after_lookup(
    list: Map<IpKey, Attempts>,
    ip: IpKey,
    now: u64,
) -> Map<IpKey, Attempts> {
    if list.contains_key(ip) && 0 < list[ip].1 <= now {
        list.remove(ip)
    } else {
        list
    }
}

/// The record of an address after another failure at `now`.
pub open spec fn failed_again(attempts: Attempts, now: u64) -> Attempts {
    let n = attempts.0.saturating_add(1);
    (
        n,
        if n >= MAX_FAILED_COMMANDS {
            now.saturating_add(COMMAND_BLOCK_DURATION_SECS)
        } else {
            attempts.1
        },
    )
}

/// The list after a failed command from `ip` at `now`.
pub open spec fn after_failure(
    list: Map<IpKey, Attempts>,
    ip: IpKey,
    now: u64,
) -> Map<IpKey, Attempts> {
    if list.contains_key(ip) {
        list.insert(ip, failed_again(list[ip], now))
    } else {
        list.insert(ip, (1, 0))
    }
}

/// The blocks that are in force at `now`.
pub open spec fn in_force(list: Map<IpKey, Attempts>, now: u64) -> Map<IpKey, Attempts> {
    list.restrict(Set::new(|ip: IpKey| list.contains_key(ip) && list[ip].1 > now))
}

/// Failed command attempts per address.
pub struct CommandBlocklist {
    blocked_ips: Table<IpKey, Attempts>,
}

impl View for CommandBlocklist {
    type V = Map<IpKey, Attempts>;

    closed spec fn view(&self) -> Map<IpKey, Attempts> {
        self.blocked_ips@
    }
}

impl CommandBlocklist {
    /// No address has failed yet.
    pub fn new() -> (list: Self)
        ensures
            list@ == Map::<IpKey, Attempts>::empty(),
    {
        CommandBlocklist { blocked_ips: Table::with_capacity(100) }
    }

    /// Whether `ip` is blocked at Unix time `now` in seconds. An expired block is lifted.
    pub fn is_blocked_at(&mut self, ip: IpAddr, now: u64) -> (yes: bool)
        ensures
            yes == blocked(old(self)@, ip.spec_key(), now),
            final(self)@ == after_lookup(old(self)@, ip.spec_key(), now),
    {
        let key = ip.key();
        if let Some((_, block_until)) = self.blocked_ips.get(&key) {
            if now < block_until {
                return true;
            }
            if block_until > 0 {
                self.blocked_ips.remove(&key);
            }
        }
        false
    }

    /// Whether `ip` is blocked. An expired block is lifted.
    pub fn is_blocked(&mut self, ip: IpAddr) -> (yes: bool)
        ensures
            exists|time: std::time::SystemTime|
                yes == blocked(old(self)@, ip.spec_key(), #[trigger] unix_secs_at(time)) && final(self)@
                    == after_lookup(old(self)@, ip.spec_key(), unix_secs_at(time)),
    {
        let now: u64 = unix_secs();
        self.is_blocked_at(ip, now)
    }

    /// Records a failed command from `ip` at Unix time `now` in seconds.
    pub fn record_failure_at(&mut self, ip: IpAddr, now: u64)
        ensures
            final(self)@ == after_failure(old(self)@, ip.spec_key(), now),
    {
        let key = ip.key();
        match self.blocked_ips.get(&key) {
            Some((attempts, block_until)) => {
                let attempts: usize = attempts.saturating_add(1);
                let block_until: u64 = if attempts >= MAX_FAILED_COMMANDS {
                    now.saturating_add(COMMAND_BLOCK_DURATION_SECS)
                } else {
                    block_until
                };
                self.blocked_ips.insert(key, (attempts, block_until));
            },
            None => {
                self.blocked_ips.insert(key, (1, 0));
            },
        }
    }

    /// Records a failed command from `ip`.
    pub fn record_failure(&mut self, ip: IpAddr)
        ensures
            exists|time: std::time::SystemTime|
                final(self)@ == after_failure(old(self)@, ip.spec_key(), #[trigger] unix_secs_at(time)),
    {
        let now: u64 = unix_secs();
        self.record_failure_at(ip, now)
    }

    /// Forgets every address that is not blocked at Unix time `now` in seconds.
    pub fn cleanup_at(&mut self, now: u64)
        ensures
            final(self)@ == in_force(old(self)@, now),
    {
        self.blocked_ips.retain(
            |_ip: &IpKey, attempts: &Attempts| -> (keep: bool)
                ensures
                    keep == (attempts.1 > now)
                { attempts.1 > now },
        );
        proof {
            assert forall|ip: IpKey| #[trigger] self@.contains_key(ip) <==> in_force(
                old(self)@,
                now,
            ).contains_key(ip) by {
                if old(self)@.contains_key(ip) {
                    let attempts = old(self)@[ip];
                    assert(self@.contains_key(ip) == (attempts.1 > now));
                }
            }
            assert(self@ =~= in_force(old(self)@, now));
        }
    }

    /// Forgets every address that is not blocked.
    pub fn cleanup(&mut self)
        ensures
            exists|time: std::time::SystemTime|
                final(self)@ == in_force(old(self)@, #[trigger] unix_secs_at(time)),
    {
        let now: u64 = unix_secs();
        self.cleanup_at(now)
    }
}

/// The list after failed commands from `ip` at the given times.
pub open spec fn after_failures(
    list: Map<IpKey, Attempts>,
    ip: IpKey,
    times: Seq<u64>,
) -> Map<IpKey, Attempts>
    decreases times.len(),
{
    if times.len() == 0 {
        list
    } else {
        after_failure(after_failures(list, ip, times.drop_last()), ip, times.last())
    }
}

/// An address without a record is blocked from its third failure on, for an hour after the last
/// one, and not before; looking it up in between changes nothing.
pub proof fn law_third_failure_blocks(
    list: Map<IpKey, Attempts>,
    ip: IpKey,
    times: Seq<u64>,
    now: u64,
)
    requires
        !list.contains_key(ip),
        times.len() <= usize::MAX,
    ensures
        times.len() < MAX_FAILED_COMMANDS ==> {
            &&& !blocked(after_failures(list, ip, times), ip, now)
            &&& after_lookup(after_failures(list, ip, times), ip, now) == after_failures(
                list,
                ip,
                times,
            )
        },
        times.len() >= MAX_FAILED_COMMANDS ==> (blocked(after_failures(list, ip, times), ip, now)
            <==> now < times.last().saturating_add(COMMAND_BLOCK_DURATION_SECS)),
{
    lemma_attempts_are_counted(list, ip, times);
}

proof fn lemma_attempts_are_counted(list: Map<IpKey, Attempts>, ip: IpKey, times: Seq<u64>)
    requires
        !list.contains_key(ip),
        times.len() <= usize::MAX,
    ensures
        after_failures(list, ip, times).contains_key(ip) <==> times.len() > 0,
        times.len() > 0 ==> after_failures(list, ip, times)[ip].0 == times.len(),
        0 < times.len() < MAX_FAILED_COMMANDS ==> after_failures(list, ip, times)[ip].1 == 0,
        times.len() >= MAX_FAILED_COMMANDS ==> after_failures(list, ip, times)[ip].1
            == times.last().saturating_add(COMMAND_BLOCK_DURATION_SECS),
    decreases times.len(),
{
    if times.len() > 0 {
        lemma_attempts_are_counted(list, ip, times.drop_last());
    }
}

/// A failure of one address leaves every other address as it was.
pub proof fn law_failures_are_separate(
    list: Map<IpKey, Attempts>,
    ip: IpKey,
    other: IpKey,
    failed_at: u64,
    now: u64,
)
    requires
        ip != other,
    ensures
        blocked(after_failure(list, ip, failed_at), other, now) == blocked(list, other, now),
{
}

/// Forgetting the addresses that are not blocked lifts no block.
pub proof fn law_cleanup_lifts_no_block(
    list: Map<IpKey, Attempts>,
    ip: IpKey,
    cleaned_at: u64,
    now: u64,
)
    requires
        cleaned_at <= now,
    ensures
        blocked(in_force(list, cleaned_at), ip, now) == blocked(list, ip, now),
{
}

/// The first two failures of an address block nothing. With the third, and with every one after
/// that, it is blocked until an hour later.
pub proof fn law_blocked_for_an_hour_after_three_failures(
    list: Map<IpKey, Attempts>,
    ip: IpKey,
    failed_at: u64,
    now: u64,
)
    requires
        failed_at <= 0xffff_ffff_ffff,
    ensures
        ({
            let after = after_failure(list, ip, failed_at);
            &&& !list.contains_key(ip) ==> after[ip].0 == 1 && !blocked(after, ip, now)
            &&& list.contains_key(ip) && list[ip].0 < 2 ==> after[ip].0 == list[ip].0 + 1 && blocked(
                after,
                ip,
                now,
            ) == blocked(list, ip, now)
            &&& list.contains_key(ip) && list[ip].0 >= 2 ==> after[ip].1 == failed_at + 3600
                && (blocked(after, ip, now) <==> now < failed_at + 3600)
            &&& list.contains_key(ip) && 2 <= list[ip].0 < usize::MAX ==> after[ip].0 == list[ip].0
                + 1
            &&& after == list.insert(ip, after[ip])
        }),
{
}

/// Looking an address up changes nothing unless its block has expired: then all that is known of it
/// is forgotten.
pub proof fn law_expired_blocks_are_lifted(list: Map<IpKey, Attempts>, ip: IpKey, now: u64)
    ensures
        blocked(list, ip, now) <==> list.contains_key(ip) && now < list[ip].1,
        list.contains_key(ip) && 0 < list[ip].1 <= now ==> after_lookup(list, ip, now)
            == list.remove(ip),
        !list.contains_key(ip) || list[ip].1 == 0 || now < list[ip].1 ==> after_lookup(
            list,
            ip,
            now,
        ) == list,
{
}

/// A cleanup keeps exactly the addresses that are blocked.
pub proof fn law_cleanup_keeps_the_blocked(list: Map<IpKey, Attempts>, ip: IpKey, now: u64)
    ensures
        in_force(list, now).contains_key(ip) <==> list.contains_key(ip) && now < list[ip].1,
        in_force(list, now).contains_key(ip) ==> in_force(list, now)[ip] == list[ip],
{
}

} // verus!
