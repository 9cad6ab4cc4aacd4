//! Network settings.
use vstd::prelude::*;

verus! {

/// The port a server listens on when none is configured.
pub const DEFAULT_PORT: u16 = 5800;

/// Network settings; durations are in milliseconds.
#[derive(Clone, Copy, Debug, PartialEq, Eq, Structural)]
pub struct NetworkConfig {
    pub port: Option<u16>,
    pub max_packet_size: usize,
    pub target_bandwidth: usize,
    pub connection_timeout_ms: u64,
    pub keepalive_interval_ms: u64,
}

impl NetworkConfig {
    /// No fixed port, 1400-byte packets, 5 MB/s, 10 s timeout, 5 s keep-alive.
    pub open spec fn default_spec() -> NetworkConfig {
        NetworkConfig {
            port: None,
            max_packet_size: 1400,
            target_bandwidth: 5_000_000,
            connection_timeout_ms: 10_000,
            keepalive_interval_ms: 5_000,
        }
    }

    /// The configured port, or [`DEFAULT_PORT`].
    pub fn port_or_default(&self) -> (r: u16)
        ensures
            r == match self.port {
                Some(p) => p,
                None => DEFAULT_PORT,
            },
    {
        match self.port {
            Some(p) => p,
            None => DEFAULT_PORT,
        }
    }
}

impl Default for NetworkConfig {
    fn default() -> (r: NetworkConfig)
        ensures
            r == NetworkConfig::default_spec(),
    {
        NetworkConfig {
            port: None,
            max_packet_size: 1400,
            target_bandwidth: 5_000_000,
            connection_timeout_ms: 10_000,
            keepalive_interval_ms: 5_000,
        }
    }
}

} // verus!
