//! Configuration of the server.

use vstd::prelude::*;

use crate::text::{
    chars_of, decimal, is_trimmed, law_removal_keeps_the_others, law_trimming_cuts_white_space,
    law_trimming_is_unique, lemma_without_absent, push_decimal, remove_char, string_of, trim_chars,
    trims, without,
};

verus! {

/// The largest port that needs privileges.
pub const MAX_PRIVILEGED_PORT: u16 = 1024;

/// The fewest clients that a server can be set up for.
pub const MIN_CLIENTS: usize = 2;

/// The most clients that a server can be set up for.
pub const MAX_CLIENTS: usize = 10_000;

/// What the command line and the environment ask for.
#[derive(Debug, Clone)]
pub struct Args {
    pub port: u16,
    pub portv2: u16,
    pub name: String,
    pub maxclients: usize,
    pub nomaster: bool,
    pub masterpw: String,
    pub maintpw: String,
    pub master: String,
    pub iplimit: usize,
    pub iplimitv2: usize,
    pub nop2p: bool,
    pub workers: usize,
    pub metrics_port: u16,
}

/// Why a configuration is not accepted.
#[derive(Debug, Clone, Copy, PartialEq, Eq, Structural)]
pub enum ConfigError {
    /// The port needs privileges.
    PrivilegedPort(u16),
    TooFewClients,
    TooManyClients,
}

impl ConfigError {
    /// The error in words.
    pub open spec fn spec_message(self) -> Seq<char> {
        match self {
            ConfigError::PrivilegedPort(port) => "Port "@ + decimal(port as nat)
                + " requires root privileges. Use a port > 1024 or 0 for auto"@,
            ConfigError::TooFewClients => "Max clients must be at least 2"@,
            ConfigError::TooManyClients => "Max clients cannot exceed 10000 for safety"@,
        }
    }

    /// The error in words.
    pub fn message(&self) -> (text: String)
        ensures
            text@ == self.spec_message(),
    {
        match *self {
            ConfigError::PrivilegedPort(port) => {
                let mut text = "Port ".to_owned();
                push_decimal(&mut text, port as u64);
                text.append(" requires root privileges. Use a port > 1024 or 0 for auto");
                text
            },
            ConfigError::TooFewClients => "Max clients must be at least 2".to_owned(),
            ConfigError::TooManyClients => "Max clients cannot exceed 10000 for safety".to_owned(),
        }
    }
}

/// Configuration of the server.
#[derive(Debug, Clone)]
pub struct ServerConfig {
    pub tunnel_port: u16,
    pub tunnel_v2_port: u16,
    pub name: String,
    pub max_clients: usize,
    pub no_master_announce: bool,
    pub master_password: String,
    pub maintenance_password: String,
    pub master_server_url: String,
    pub ip_limit: usize,
    pub ip_limit_v2: usize,
    pub no_p2p: bool,
    pub worker_threads: usize,
    pub metrics_port: u16,
}

/// A port that needs privileges. Port 0 stands for any free port.
pub open spec fn is_privileged(port: u16) -> bool {
    0 < port <= MAX_PRIVILEGED_PORT
}

/// A limit between 1 and 100.
pub open spec fn clamped(limit: usize) -> usize {
    if limit < 1 {
        1
    } else if limit > 100 {
        100
    } else {
        limit
    }
}

/// The first reason for which the arguments are not accepted.
pub open spec fn rejection(args: Args) -> Option<ConfigError> {
    if is_privileged(args.port) {
        Some(ConfigError::PrivilegedPort(args.port))
    } else if is_privileged(args.portv2) {
        Some(ConfigError::PrivilegedPort(args.portv2))
    } else if args.maxclients < MIN_CLIENTS {
        Some(ConfigError::TooFewClients)
    } else if args.maxclients > MAX_CLIENTS {
        Some(ConfigError::TooManyClients)
    } else {
        None
    }
}

/// The configuration is the one that the arguments ask for: with a name without semicolons and
/// without white space at its ends, and with limits between 1 and 100.
pub open spec fn is_config_of(config: ServerConfig, args: Args) -> bool {
    &&& config.tunnel_port == args.port
    &&& config.tunnel_v2_port == args.portv2
    &&& is_trimmed(config.name@, without(args.name@, ';'))
    &&& config.max_clients == args.maxclients
    &&& config.no_master_announce == args.nomaster
    &&& config.master_password@ == args.masterpw@
    &&& config.maintenance_password@ == args.maintpw@
    &&& config.master_server_url@ == args.master@
    &&& config.ip_limit == clamped(args.iplimit)
    &&& config.ip_limit_v2 == clamped(args.iplimitv2)
    &&& config.no_p2p == args.nop2p
    &&& config.worker_threads == args.workers
    &&& config.metrics_port == args.metrics_port
}

impl ServerConfig {
    /// The ports need no privileges, and the limits are within their ranges.
    pub open spec fn valid(self) -> bool {
        &&& !is_privileged(self.tunnel_port)
        &&& !is_privileged(self.tunnel_v2_port)
        &&& MIN_CLIENTS <= self.max_clients <= MAX_CLIENTS
        &&& 1 <= self.ip_limit <= 100
        &&& 1 <= self.ip_limit_v2 <= 100
    }

    fn clamp_limit(limit: usize) -> (clamped_limit: usize)
        ensures
            clamped_limit == clamped(limit),
    {
        if limit < 1 {
            1
        } else if limit > 100 {
            100
        } else {
            limit
        }
    }

    /// The configuration that the arguments ask for, or the first reason for which they are not
    /// accepted.
    pub fn from_args(args: Args) -> (config: Result<Self, ConfigError>)
        ensures
            match rejection(args) {
                Some(error) => config == Err::<ServerConfig, ConfigError>(error),
                None => config matches Ok(accepted) && is_config_of(accepted, args)
                    && accepted.valid(),
            },
    {
        if args.port <= MAX_PRIVILEGED_PORT && args.port != 0 {
            return Err(ConfigError::PrivilegedPort(args.port));
        }
        if args.portv2 <= MAX_PRIVILEGED_PORT && args.portv2 != 0 {
            return Err(ConfigError::PrivilegedPort(args.portv2));
        }
        if args.maxclients < MIN_CLIENTS {
            return Err(ConfigError::TooFewClients);
        }
        if args.maxclients > MAX_CLIENTS {
            return Err(ConfigError::TooManyClients);
        }
        let name = string_of(&trim_chars(&remove_char(&chars_of(args.name.as_str()), ';')));
        Ok(
            ServerConfig {
                tunnel_port: args.port,
                tunnel_v2_port: args.portv2,
                name,
                max_clients: args.maxclients,
                no_master_announce: args.nomaster,
                master_password: args.masterpw,
                maintenance_password: args.maintpw,
                master_server_url: args.master,
                ip_limit: Self::clamp_limit(args.iplimit),
                ip_limit_v2: Self::clamp_limit(args.iplimitv2),
                no_p2p: args.nop2p,
                worker_threads: args.workers,
                metrics_port: args.metrics_port,
            },
        )
    }

    /// How many worker threads the runtime gets on so many processors, or nothing for as many as
    /// it likes: what is configured, or else at most 4 on 64-bit ARM.
    pub fn runtime_threads(&self, arm64: bool, cpus: usize) -> (threads: Option<usize>)
        ensures
            threads == if self.worker_threads > 0 {
                Some(self.worker_threads)
            } else if !arm64 {
                None
            } else if cpus < 1 {
                Some(1)
            } else if cpus > 4 {
                Some(4)
            } else {
                Some(cpus)
            },
    {
        if self.worker_threads > 0 {
            Some(self.worker_threads)
        } else if !arm64 {
            None
        } else if cpus < 1 {
            Some(1)
        } else if cpus > 4 {
            Some(4)
        } else {
            Some(cpus)
        }
    }
}

/// Arguments are accepted exactly if no port needs privileges, those up to 1024 but for 0, and 2 to
/// 10000 clients are asked for. The first reason against them is told.
pub proof fn law_arguments_are_accepted(args: Args)
    ensures
        rejection(args) is None <==> (args.port == 0 || args.port > 1024) && (args.portv2 == 0
            || args.portv2 > 1024) && 2 <= args.maxclients <= 10_000,
        1 <= args.port <= 1024 ==> rejection(args) == Some(ConfigError::PrivilegedPort(args.port)),
        (args.port == 0 || args.port > 1024) && 1 <= args.portv2 <= 1024 ==> rejection(args) == Some(
            ConfigError::PrivilegedPort(args.portv2),
        ),
        (args.port == 0 || args.port > 1024) && (args.portv2 == 0 || args.portv2 > 1024)
            && args.maxclients < 2 ==> rejection(args) == Some(ConfigError::TooFewClients),
        (args.port == 0 || args.port > 1024) && (args.portv2 == 0 || args.portv2 > 1024)
            && args.maxclients > 10_000 ==> rejection(args) == Some(ConfigError::TooManyClients),
{
}

/// An accepted configuration has the ports, the passwords and the number of clients that were
/// asked for; limits per address are brought between 1 and 100, and the name loses its semicolons
/// and the white space at its ends.
pub proof fn law_configuration_is_what_was_asked_for(config: ServerConfig, args: Args)
    requires
        is_config_of(config, args),
    ensures
        config.tunnel_port == args.port,
        config.tunnel_v2_port == args.portv2,
        config.max_clients == args.maxclients,
        config.master_password@ == args.masterpw@,
        config.maintenance_password@ == args.maintpw@,
        config.master_server_url@ == args.master@,
        config.no_master_announce == args.nomaster,
        config.no_p2p == args.nop2p,
        config.worker_threads == args.workers,
        config.metrics_port == args.metrics_port,
        1 <= config.ip_limit <= 100,
        1 <= config.ip_limit_v2 <= 100,
        1 <= args.iplimit <= 100 ==> config.ip_limit == args.iplimit,
        1 <= args.iplimitv2 <= 100 ==> config.ip_limit_v2 == args.iplimitv2,
        args.iplimit == 0 ==> config.ip_limit == 1,
        args.iplimit > 100 ==> config.ip_limit == 100,
        args.iplimitv2 == 0 ==> config.ip_limit_v2 == 1,
        args.iplimitv2 > 100 ==> config.ip_limit_v2 == 100,
        !config.name@.contains(';'),
        !args.name@.contains(';') && args.name@.len() > 0 && '!' <= args.name@[0] <= '~' && '!'
            <= args.name@[args.name@.len() - 1] <= '~' ==> config.name@ == args.name@,
{
    let text = without(args.name@, ';');
    law_removal_keeps_the_others(args.name@, ';', ';');
    let (from, to) = choose|from: int, to: int| #[trigger]
        trims(text, from, to) && config.name@ == text.subrange(from, to);
    assert forall|i: int| 0 <= i < config.name@.len() implies config.name@[i] != ';' by {
        assert(text.contains(text[from + i]));
    }
    if !args.name@.contains(';') && args.name@.len() > 0 && '!' <= args.name@[0] <= '~' && '!'
        <= args.name@[args.name@.len() - 1] <= '~' {
        lemma_without_absent(args.name@, ';');
        law_trimming_cuts_white_space(args.name@, args.name@, ' ');
        law_trimming_is_unique(args.name@, args.name@, config.name@);
    }
}

/// The reasons are told in words, with the port if it is one.
pub proof fn law_reasons_are_told(port: u16)
    ensures
        ConfigError::PrivilegedPort(port).spec_message() == "Port "@ + decimal(port as nat)
            + " requires root privileges. Use a port > 1024 or 0 for auto"@,
        ConfigError::TooFewClients.spec_message() == "Max clients must be at least 2"@,
        ConfigError::TooManyClients.spec_message() == "Max clients cannot exceed 10000 for safety"@,
{
}

} // verus!
