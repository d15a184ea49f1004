use vstd::prelude::*;
use crate::text::prefixed;

verus! {

/// Failures of the network layer, each carrying a message.
#[derive(Debug)]
pub enum NetworkError {
    ConnectionError(String),
    HandshakeError(String),
    MessageError(String),
    ProtocolError(String),
    PeerError(String),
    DiscoveryError(String),
    TlsError(String),
    Other(String),
}

/// The text shown for a network failure: its kind, then its message.
pub open spec fn network_error_text(e: &NetworkError) -> Seq<char> {
    match e {
        NetworkError::ConnectionError(m) => "Connection error: "@ + m@,
        NetworkError::HandshakeError(m) => "Handshake error: "@ + m@,
        NetworkError::MessageError(m) => "Message error: "@ + m@,
        NetworkError::ProtocolError(m) => "Protocol error: "@ + m@,
        NetworkError::PeerError(m) => "Peer error: "@ + m@,
        NetworkError::DiscoveryError(m) => "Discovery error: "@ + m@,
        NetworkError::TlsError(m) => "TLS error: "@ + m@,
        NetworkError::Other(m) => "Other error: "@ + m@,
    }
}

impl NetworkError {
    /// The text shown for this failure.
    pub fn to_string(&self) -> (s: String)
        ensures
            s@ == network_error_text(self),
    {
        match self {
            NetworkError::ConnectionError(m) => prefixed("Connection error: ", m.as_str()),
            NetworkError::HandshakeError(m) => prefixed("Handshake error: ", m.as_str()),
            NetworkError::MessageError(m) => prefixed("Message error: ", m.as_str()),
            NetworkError::ProtocolError(m) => prefixed("Protocol error: ", m.as_str()),
            NetworkError::PeerError(m) => prefixed("Peer error: ", m.as_str()),
            NetworkError::DiscoveryError(m) => prefixed("Discovery error: ", m.as_str()),
            NetworkError::TlsError(m) => prefixed("TLS error: ", m.as_str()),
            NetworkError::Other(m) => prefixed("Other error: ", m.as_str()),
        }
    }
}

} // verus!
