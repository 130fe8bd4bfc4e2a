//! What the relay is started with.

use vstd::prelude::*;
use crate::address::Address;

verus! {

/// Seconds between two sweeps of the registry.
pub const SWEEP_PERIOD_SECS: u64 = 1;

/// How much of what the relay does is reported.
#[derive(Clone, Copy, Debug, PartialEq, Eq, Structural)]
pub enum LogLevel {
    Error,
    Warn,
    Info,
    Debug,
    Trace,
}

/// The values the relay is started with, settled once and not changed after.
#[derive(Clone, Copy, Debug, PartialEq, Eq, Structural)]
pub struct Config {
    /// The address and port the socket binds to.
    pub bind: Address,
    /// Seconds of silence after which an address is dropped.
    pub timeout_secs: u64,
    /// The most bytes of a datagram that are captured.
    pub buffer_size: usize,
    /// How much is reported.
    pub log_level: LogLevel,
}

impl Default for Config {
    /// The loopback address on port 3000, ten seconds of timeout, 1024 bytes
    /// of buffer, and reports at the level of information.
    fn default() -> (config: Config)
        ensures
            config == (Config {
                bind: Address { host: 0x7f00_0001, port: 3000 },
                timeout_secs: 10,
                buffer_size: 1024,
                log_level: LogLevel::Info,
            }),
    {
        Config {
            bind: Address { host: 0x7f00_0001, port: 3000 },
            timeout_secs: 10,
            buffer_size: 1024,
            log_level: LogLevel::Info,
        }
    }
}

} // verus!
