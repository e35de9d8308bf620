//! What the server is started with.
use core::time::Duration;
use vstd::prelude::*;

verus! {

/// The settings of one server.
#[derive(Debug)]
pub struct Config {
    /// The address to listen on, such as `0.0.0.0:8080`.
    pub bind_addr: String,
    /// The most connections open at once.
    pub max_connections: usize,
    /// How many outgoing messages wait for one client at most.
    pub client_queue_capacity: usize,
    /// How many messages a topic keeps for its slowest subscriber.
    pub topic_channel_capacity: usize,
    /// The longest text message, in bytes.
    pub max_text_bytes: usize,
    /// Messages per second that one connection may send.
    pub max_messages_per_second: u32,
    /// Messages that one connection may send at once.
    pub message_burst: u32,
    /// How long a silent connection stays open.
    pub idle_timeout: Duration,
    /// The time between two pings.
    pub heartbeat_interval: Duration,
    /// Whether log lines are JSON.
    pub json_logs: bool,
    /// The HMAC secret for tokens (HS256). When set, clients need a token.
    pub jwt_secret: Option<String>,
    /// The PEM-encoded public key for tokens (RS256 or EdDSA), in place of a secret.
    pub jwt_public_key: Option<String>,
    /// The issuer that tokens must not contradict.
    pub jwt_issuer: Option<String>,
    /// The most connections open at once from one address. None: no limit.
    pub ip_max_concurrent: Option<usize>,
    /// New connections per second from one address. None: no limit.
    pub ip_connection_rate: Option<u32>,
    /// New connections at once from one address. None: as many as the rate.
    pub ip_rate_burst: Option<u32>,
    /// Whether the headers of a reverse proxy name the client's address. Only behind a proxy
    /// that can be trusted.
    pub trust_proxy_headers: bool,
    /// The most connections open at once for one tenant. None: no limit.
    pub tenant_max_connections: Option<usize>,
    /// Messages per second that a tenant's clients may send together. None: no limit.
    pub tenant_max_messages_per_second: Option<u32>,
    /// Messages that a tenant's clients may send at once. None: as many as the rate.
    pub tenant_message_burst: Option<u32>,
}

/// The whole nanoseconds of a duration.
pub uninterp spec fn duration_nanos(d: Duration) -> u128;

/// `core::time::Duration::as_nanos`. Claimed: the number of nanoseconds depends on the duration
/// alone.
pub assume_specification[ core::time::Duration::as_nanos ](d: &core::time::Duration) -> (r: u128)
    ensures
        r == duration_nanos(*d),
;

/// The nanoseconds of a duration, as far as the range goes.
pub open spec fn bounded_nanos(d: Duration) -> u64 {
    if duration_nanos(d) > u64::MAX {
        u64::MAX
    } else {
        duration_nanos(d) as u64
    }
}

/// The nanoseconds of a duration, as far as the range goes.
pub fn nanos(d: &Duration) -> (r: u64)
    ensures
        r == bounded_nanos(*d),
{
    let n: u128 = d.as_nanos();
    if n > u64::MAX as u128 {
        u64::MAX
    } else {
        n as u64
    }
}

} // verus!
