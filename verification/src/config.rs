//! The immutable configuration the forwarder is started with, and the
//! build-time constants of the resolution engine.

use vstd::prelude::*;

verus! {

/// The list of upstream resolvers, in the order the fan-out seeds from.
#[derive(Clone, Debug)]
pub struct Config {
    pub servers: Vec<ServerConfig>,
}

/// One upstream resolver: a host or address without a port, whether it
/// is queried over DNS over TLS (port 853) or plain UDP (port 53), and a
/// free-form description that the engine ignores.
#[derive(Clone, Debug)]
pub struct ServerConfig {
    pub address: String,
    pub use_tls: bool,
    pub description: String,
}

/// Time-to-live, in seconds, assigned to every positive cache insert.
pub const CACHE_TTL: u64 = 300;

/// Per-upstream and fan-out deadline, in seconds.
pub const DNS_TIMEOUT: u64 = 3;

} // verus!
