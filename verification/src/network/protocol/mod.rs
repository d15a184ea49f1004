//! Messages exchanged between peers, their priority queues and their wire format.

pub mod codec;
pub mod queue;

use vstd::prelude::*;


pub use queue::MessageQueue;

verus! {

/// Version of the peer protocol (the quantum-resistant revision).
pub const PROTOCOL_VERSION: u32 = 2;

/// Largest accepted message, in bytes (1 MiB).
pub const MAX_MESSAGE_SIZE: usize = 1024 * 1024;

/// Number of outbound messages that may be queued before credit runs out.
pub const MAX_INFLIGHT_MESSAGES: usize = 100;

/// Number of inbound messages the receiver accepts before it answers with credit.
pub const FLOW_CONTROL_WINDOW: usize = 10;

/// Seconds between two pings.
pub const PING_INTERVAL: u64 = 60;

/// Seconds to wait for a pong.
pub const PONG_TIMEOUT: u64 = 30;

/// Seconds allowed for a handshake.
pub const HANDSHAKE_TIMEOUT: u64 = 10;

/// Key material of a quantum key distribution exchange (it carries no field).
#[derive(Clone, Debug, PartialEq, Eq)]
pub struct QKDKey {}

/// A message of the peer protocol.
#[derive(Clone, Debug, PartialEq, Eq)]
pub enum ProtocolMessage {
    Ping,
    Pong,
    Handshake { version: u32, peer_id: String, peer_address: String },
    BlockRequest { block_hash: String },
    PeerDiscovery { peer_addresses: Vec<String> },
    StateSyncRequest { shard_id: u64 },
    StateSyncResponse { shard_id: u64, state: Vec<u8> },
    QKDKeyRequest,
    QKDKeyResponse { key: QKDKey },
    QKDKeyConfirmation,
    QuantumStateMeasurementResults { results: Vec<bool> },
    ClassicalKeyExchange { public_key: Vec<u8> },
    ClassicalKeyExchangeResponse { public_key: Vec<u8> },
    QuantumKeyExchange { public_key: Vec<u8> },
    QuantumKeyExchangeResponse { public_key: Vec<u8> },
    UsefulWorkProblem { problem: Vec<u8> },
    FlowControlCredit { credit: usize },
    FlowControlAck,
    TLSHandshake { version: u32, peer_id: String },
    TLSKeyExchange { public_key: Vec<u8> },
    TLSEncryptedMessage { data: Vec<u8> },
}

/// The abstract content of a protocol message: byte buffers as byte sequences,
/// strings as character sequences.
pub enum MessageModel {
    Ping,
    Pong,
    Handshake { version: u32, peer_id: Seq<char>, peer_address: Seq<char> },
    BlockRequest { block_hash: Seq<char> },
    PeerDiscovery { peer_addresses: Seq<Seq<char>> },
    StateSyncRequest { shard_id: u64 },
    StateSyncResponse { shard_id: u64, state: Seq<u8> },
    QKDKeyRequest,
    QKDKeyResponse,
    QKDKeyConfirmation,
    QuantumStateMeasurementResults { results: Seq<bool> },
    ClassicalKeyExchange { public_key: Seq<u8> },
    ClassicalKeyExchangeResponse { public_key: Seq<u8> },
    QuantumKeyExchange { public_key: Seq<u8> },
    QuantumKeyExchangeResponse { public_key: Seq<u8> },
    UsefulWorkProblem { problem: Seq<u8> },
    FlowControlCredit { credit: usize },
    FlowControlAck,
    TLSHandshake { version: u32, peer_id: Seq<char> },
    TLSKeyExchange { public_key: Seq<u8> },
    TLSEncryptedMessage { data: Seq<u8> },
}

/// The characters of each string of a list.
pub open spec fn strings_view(v: Seq<String>) -> Seq<Seq<char>> {
    v.map_values(|s: String| s@)
}

impl View for ProtocolMessage {
    type V = MessageModel;

    open spec fn view(&self) -> MessageModel {
        match self {
            ProtocolMessage::Ping => MessageModel::Ping,
            ProtocolMessage::Pong => MessageModel::Pong,
            ProtocolMessage::Handshake { version, peer_id, peer_address } =>
                MessageModel::Handshake { version: *version, peer_id: peer_id@, peer_address: peer_address@ },
            ProtocolMessage::BlockRequest { block_hash } => MessageModel::BlockRequest { block_hash: block_hash@ },
            ProtocolMessage::PeerDiscovery { peer_addresses } =>
                MessageModel::PeerDiscovery { peer_addresses: strings_view(peer_addresses@) },
            ProtocolMessage::StateSyncRequest { shard_id } => MessageModel::StateSyncRequest { shard_id: *shard_id },
            ProtocolMessage::StateSyncResponse { shard_id, state } =>
                MessageModel::StateSyncResponse { shard_id: *shard_id, state: state@ },
            ProtocolMessage::QKDKeyRequest => MessageModel::QKDKeyRequest,
            ProtocolMessage::QKDKeyResponse { .. } => MessageModel::QKDKeyResponse,
            ProtocolMessage::QKDKeyConfirmation => MessageModel::QKDKeyConfirmation,
            ProtocolMessage::QuantumStateMeasurementResults { results } =>
                MessageModel::QuantumStateMeasurementResults { results: results@ },
            ProtocolMessage::ClassicalKeyExchange { public_key } =>
                MessageModel::ClassicalKeyExchange { public_key: public_key@ },
            ProtocolMessage::ClassicalKeyExchangeResponse { public_key } =>
                MessageModel::ClassicalKeyExchangeResponse { public_key: public_key@ },
            ProtocolMessage::QuantumKeyExchange { public_key } =>
                MessageModel::QuantumKeyExchange { public_key: public_key@ },
            ProtocolMessage::QuantumKeyExchangeResponse { public_key } =>
                MessageModel::QuantumKeyExchangeResponse { public_key: public_key@ },
            ProtocolMessage::UsefulWorkProblem { problem } => MessageModel::UsefulWorkProblem { problem: problem@ },
            ProtocolMessage::FlowControlCredit { credit } => MessageModel::FlowControlCredit { credit: *credit },
            ProtocolMessage::FlowControlAck => MessageModel::FlowControlAck,
            ProtocolMessage::TLSHandshake { version, peer_id } =>
                MessageModel::TLSHandshake { version: *version, peer_id: peer_id@ },
            ProtocolMessage::TLSKeyExchange { public_key } => MessageModel::TLSKeyExchange { public_key: public_key@ },
            ProtocolMessage::TLSEncryptedMessage { data } => MessageModel::TLSEncryptedMessage { data: data@ },
        }
    }
}

/// A protocol message with its priority; a higher number is served first.
pub struct PrioritizedMessage {
    pub priority: u8,
    pub message: ProtocolMessage,
}

/// Failures of the protocol layer.
#[derive(Debug)]
pub enum ProtocolError {
    SerializationFailed(String),
    DeserializationFailed(String),
    CompressionFailed(String),
    DecompressionFailed(String),
    EncryptionFailed(String),
    DecryptionFailed(String),
    QKDFailed(String),
    QuantumStateDistributionFailed(String),
}

} // verus!
