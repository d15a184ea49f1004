pub mod compression;
pub mod config;
pub mod error;
pub mod handler;
pub mod p2p;
pub mod peer_admission;
pub mod peer_discovery;
pub mod protocol;
pub mod quantum_resistant;
pub mod server;
pub mod shard_codec;
pub mod shard_message;
pub mod shard_network;
pub mod sync;
pub mod tls_config;
