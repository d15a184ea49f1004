use vstd::prelude::*;
use std::time::Duration;

verus! {

/// The duration of the given number of whole seconds, as `Duration::from_secs` builds it.
pub uninterp spec fn seconds_duration(secs: u64) -> Duration;

/// Calls `std::time::Duration::from_secs`, which builds the duration of `secs`
/// whole seconds; the result is named by `seconds_duration`.
#[verifier::external_body]
fn duration_from_secs(secs: u64) -> (d: Duration)
    ensures
        d == seconds_duration(secs),
{
    Duration::from_secs(secs)
}

/// Settings of the peer-to-peer network layer.
#[derive(Debug, Clone)]
pub struct NetworkConfig {
    /// The address to listen on for incoming connections.
    pub listen_address: String,
    /// A list of bootstrap nodes to connect to.
    pub bootstrap_nodes: Vec<String>,
    /// The maximum number of connections allowed.
    pub max_connections: usize,
    /// The timeout duration for handshakes.
    pub handshake_timeout: Duration,
    /// The timeout duration for messages.
    pub message_timeout: Duration,
    /// The interval for sending ping messages.
    pub ping_interval: Duration,
    /// The maximum size of a message.
    pub max_message_size: usize,
    /// The maximum size of a frame.
    pub max_frame_size: usize,
    /// Whether to use TLS for connections.
    pub use_tls: bool,
    /// The path to the TLS certificate file.
    pub tls_certificate_path: Option<String>,
    /// The path to the TLS private key file.
    pub tls_private_key_path: Option<String>,
    /// Whether to use quantum-resistant features.
    pub use_quantum: bool,
}

/// `Duration` is `Copy`: a clone is the same duration.
pub assume_specification[ <Duration as Clone>::clone ](d: &Duration) -> (r: Duration)
    ensures
        r == *d,
;

/// The default settings of everything but the addresses: ten connections,
/// ten-second handshake and message timeouts, a ping each minute, one-MiB
/// messages and frames, no TLS, no quantum features.
pub open spec fn has_default_limits(c: NetworkConfig) -> bool {
    &&& c.max_connections == 10
    &&& c.handshake_timeout == seconds_duration(10)
    &&& c.message_timeout == seconds_duration(10)
    &&& c.ping_interval == seconds_duration(60)
    &&& c.max_message_size == 1048576
    &&& c.max_frame_size == 1048576
    &&& !c.use_tls
    &&& c.tls_certificate_path.is_none()
    &&& c.tls_private_key_path.is_none()
    &&& !c.use_quantum
}

impl Default for NetworkConfig {
    /// Listens on any address and port, knows no bootstrap node, and has the
    /// default limits.
    fn default() -> (c: Self)
        ensures
            c.listen_address@ == "/ip4/0.0.0.0/tcp/0"@,
            c.bootstrap_nodes@.len() == 0,
            has_default_limits(c),
    {
        NetworkConfig {
            listen_address: String::from_str("/ip4/0.0.0.0/tcp/0"),
            bootstrap_nodes: Vec::new(),
            max_connections: 10,
            handshake_timeout: duration_from_secs(10),
            message_timeout: duration_from_secs(10),
            ping_interval: duration_from_secs(60),
            max_message_size: 1024 * 1024,
            max_frame_size: 1024 * 1024,
            use_tls: false,
            tls_certificate_path: None,
            tls_private_key_path: None,
            use_quantum: false,
        }
    }
}

impl NetworkConfig {
    /// Default settings with the given listen address and bootstrap nodes.
    pub fn new(listen_address: String, bootstrap_nodes: Vec<String>) -> (c: Self)
        ensures
            c.listen_address == listen_address,
            c.bootstrap_nodes == bootstrap_nodes,
            has_default_limits(c),
    {
        let d = NetworkConfig::default();
        NetworkConfig { listen_address, bootstrap_nodes, ..d }
    }

    /// Enables TLS with the specified certificate and private key paths.
    pub fn with_tls(self, tls_certificate_path: String, tls_private_key_path: String) -> (c: Self)
        ensures
            c == (NetworkConfig {
                use_tls: true,
                tls_certificate_path: Some(tls_certificate_path),
                tls_private_key_path: Some(tls_private_key_path),
                ..self
            }),
    {
        NetworkConfig {
            use_tls: true,
            tls_certificate_path: Some(tls_certificate_path),
            tls_private_key_path: Some(tls_private_key_path),
            ..self
        }
    }

    /// Sets the maximum number of connections.
    pub fn with_max_connections(self, max_connections: usize) -> (c: Self)
        ensures
            c == (NetworkConfig { max_connections, ..self }),
    {
        NetworkConfig { max_connections, ..self }
    }

    /// Sets the handshake timeout duration.
    pub fn with_handshake_timeout(self, timeout: Duration) -> (c: Self)
        ensures
            c == (NetworkConfig { handshake_timeout: timeout, ..self }),
    {
        NetworkConfig { handshake_timeout: timeout, ..self }
    }

    /// Sets the message timeout duration.
    pub fn with_message_timeout(self, timeout: Duration) -> (c: Self)
        ensures
            c == (NetworkConfig { message_timeout: timeout, ..self }),
    {
        NetworkConfig { message_timeout: timeout, ..self }
    }

    /// Sets the ping interval duration.
    pub fn with_ping_interval(self, interval: Duration) -> (c: Self)
        ensures
            c == (NetworkConfig { ping_interval: interval, ..self }),
    {
        NetworkConfig { ping_interval: interval, ..self }
    }

    /// Sets the maximum message size.
    pub fn with_max_message_size(self, size: usize) -> (c: Self)
        ensures
            c == (NetworkConfig { max_message_size: size, ..self }),
    {
        NetworkConfig { max_message_size: size, ..self }
    }

    /// Sets the maximum frame size.
    pub fn with_max_frame_size(self, size: usize) -> (c: Self)
        ensures
            c == (NetworkConfig { max_frame_size: size, ..self }),
    {
        NetworkConfig { max_frame_size: size, ..self }
    }
}

} // verus!
