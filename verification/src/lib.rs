//! Coordination core of a local proving service: an expiring content store,
//! the session state machine, the proving worker's decisions and a
//! proxy-aware resolver for the server's public base URL.

pub mod error;
pub mod prover;
pub mod routes;
pub mod state;
pub mod text;
pub mod url_resolver;
pub mod version;

use crate::url_resolver::BaseUrl;
use vstd::prelude::*;

verus! {

/// How long a request waits for room in the prover's queue, in seconds.
pub const ENQUEUE_TIMEOUT_SECS: u64 = 120;

/// How long the sweeper waits between two sweeps of the store, in seconds.
pub const CLEANUP_INTERVAL_SECS: u64 = 60;

/// The largest request body that the service takes, in bytes.
pub const MAX_BODY_BYTES: usize = 268435456;

/// How the service is set up.
#[derive(Debug)]
pub struct ServerOptions {
    /// The base URL of the server, where the administrator fixed one.
    pub server_url: Option<BaseUrl>,
    /// How long the store keeps an entry, in nanoseconds.
    pub ttl: u128,
    /// How many tasks can wait for the prover.
    pub channel_buffer_size: usize,
}

impl ServerOptions {
    /// Whether the service can start with these options: the queue must have
    /// room for a task.
    pub open spec fn valid(&self) -> bool {
        self.channel_buffer_size >= 1
    }

    /// Whether the service can start with these options.
    pub fn is_valid(&self) -> (valid: bool)
        ensures
            valid == self.valid(),
    {
        self.channel_buffer_size >= 1
    }
}

} // verus!
