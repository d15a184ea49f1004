//! Verified core of the ZephyrChain node: the transaction pool and block
//! templates, the task marketplace, the peer protocol (message queues, wire
//! format, signed frames, server decisions), peer discovery and admission,
//! shard routing, shard messages and their wire format, network and TLS
//! configuration, and the profiling and smart-contract helpers of the HDC
//! models.

pub mod chain;
pub mod clock;
pub mod hdcmodels;
pub mod marketplace;
pub mod mining;
pub mod network;
pub mod text;
