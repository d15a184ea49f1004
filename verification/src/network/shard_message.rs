use vstd::prelude::*;
use std::collections::HashMap;
use crate::chain::block::{Block, BlockModel};
use crate::chain::transaction::Transaction;
use crate::network::protocol::QKDKey;
use crate::network::shard_codec::received_shard_message;

verus! {

broadcast use vstd::std_specs::hash::group_hash_axioms;

/// A message exchanged between the nodes of the shards.
#[derive(Clone, Debug)]
pub enum ShardMessage {
    TransactionMessage(Transaction),
    StateRequest { shard_id: u64 },
    QKDKeyRequestShard,
    QKDKeyResponseShard(QKDKey),
    QKDKeyConfirmationShard,
    QuantumStateMeasurementResultsShard(Vec<bool>),
    ShardSyncRequest { shard_id: u64, sync_hash: String },
    ShardSyncResponse { shard_id: u64, sync_data: Vec<u8> },
    CrossShardTransactionMessage { transaction: Transaction, source_shard_id: u64, target_shard_id: u64 },
    ShardBlockProposalMessage { block: Block, shard_id: u64 },
    ShardBlockCommitMessage { block_hash: String, shard_id: u64 },
}

/// The content of a shard message: strings as characters, buffers and lists
/// as sequences.
pub enum ShardModel {
    TransactionMessage(Transaction),
    StateRequest { shard_id: u64 },
    QKDKeyRequestShard,
    QKDKeyResponseShard,
    QKDKeyConfirmationShard,
    QuantumStateMeasurementResultsShard(Seq<bool>),
    ShardSyncRequest { shard_id: u64, sync_hash: Seq<char> },
    ShardSyncResponse { shard_id: u64, sync_data: Seq<u8> },
    CrossShardTransactionMessage { transaction: Transaction, source_shard_id: u64, target_shard_id: u64 },
    ShardBlockProposalMessage { block: BlockModel, shard_id: u64 },
    ShardBlockCommitMessage { block_hash: Seq<char>, shard_id: u64 },
}

impl View for ShardMessage {
    type V = ShardModel;

    open spec fn view(&self) -> ShardModel {
        match self {
            ShardMessage::TransactionMessage(tx) => ShardModel::TransactionMessage(*tx),
            ShardMessage::StateRequest { shard_id } => ShardModel::StateRequest { shard_id: *shard_id },
            ShardMessage::QKDKeyRequestShard => ShardModel::QKDKeyRequestShard,
            ShardMessage::QKDKeyResponseShard(_) => ShardModel::QKDKeyResponseShard,
            ShardMessage::QKDKeyConfirmationShard => ShardModel::QKDKeyConfirmationShard,
            ShardMessage::QuantumStateMeasurementResultsShard(r) => ShardModel::QuantumStateMeasurementResultsShard(
                r@,
            ),
            ShardMessage::ShardSyncRequest { shard_id, sync_hash } => ShardModel::ShardSyncRequest {
                shard_id: *shard_id,
                sync_hash: sync_hash@,
            },
            ShardMessage::ShardSyncResponse { shard_id, sync_data } => ShardModel::ShardSyncResponse {
                shard_id: *shard_id,
                sync_data: sync_data@,
            },
            ShardMessage::CrossShardTransactionMessage { transaction, source_shard_id, target_shard_id } =>
                ShardModel::CrossShardTransactionMessage {
                transaction: *transaction,
                source_shard_id: *source_shard_id,
                target_shard_id: *target_shard_id,
            },
            ShardMessage::ShardBlockProposalMessage { block, shard_id } => ShardModel::ShardBlockProposalMessage {
                block: block@,
                shard_id: *shard_id,
            },
            ShardMessage::ShardBlockCommitMessage { block_hash, shard_id } => ShardModel::ShardBlockCommitMessage {
                block_hash: block_hash@,
                shard_id: *shard_id,
            },
        }
    }
}

/// What the node does in answer to a shard message.
#[derive(Debug)]
pub enum ShardAction {
    /// Validate `transaction` and apply it to the state of shard `shard_id`.
    ProcessTransaction { shard_id: u64, transaction: Transaction },
    /// Send the current state of shard `shard_id` back to that shard.
    SendShardState { shard_id: u64 },
    /// Make a QKD key pair for shard `shard_id`, keep its private half and
    /// send the public half to that shard.
    IssueQkdKey { shard_id: u64 },
    /// Send `message` to shard `shard_id`.
    Send { shard_id: u64, message: ShardMessage },
    /// Send `message` to every node of shard `shard_id`.
    Broadcast { shard_id: u64, message: ShardMessage },
    /// Compare the state of shard `shard_id` with `sync_hash` and answer with
    /// the state when they differ (see `sync_response`).
    AnswerSyncRequest { shard_id: u64, sync_hash: String },
    /// Replace the state of shard `shard_id` by the serialized `sync_data`.
    ApplySync { shard_id: u64, sync_data: Vec<u8> },
    /// Encrypt `results` under the keys held for shard `shard_id` and send them there.
    SendMeasurementResults { shard_id: u64, results: Vec<bool> },
    /// The key exchange with shard `shard_id` is complete; nothing is sent.
    KeyExchangeComplete { shard_id: u64 },
}

/// The answer to `message`, received from shard `shard_id`.
///
/// A state or sync request names the shard it is about; a cross-shard
/// transaction goes on to its target shard; block proposals and commits are
/// spread within the shard they name; a QKD key response is confirmed to the
/// sender.
pub open spec fn shard_action(shard_id: u64, message: ShardMessage) -> ShardAction {
    match message {
        ShardMessage::TransactionMessage(transaction) => ShardAction::ProcessTransaction {
            shard_id,
            transaction,
        },
        ShardMessage::StateRequest { shard_id: s } => ShardAction::SendShardState { shard_id: s },
        ShardMessage::QKDKeyRequestShard => ShardAction::IssueQkdKey { shard_id },
        ShardMessage::QKDKeyResponseShard(_) => ShardAction::Send {
            shard_id,
            message: ShardMessage::QKDKeyConfirmationShard,
        },
        ShardMessage::QKDKeyConfirmationShard => ShardAction::KeyExchangeComplete { shard_id },
        ShardMessage::QuantumStateMeasurementResultsShard(results) => ShardAction::SendMeasurementResults {
            shard_id,
            results,
        },
        ShardMessage::ShardSyncRequest { shard_id: s, sync_hash } => ShardAction::AnswerSyncRequest {
            shard_id: s,
            sync_hash,
        },
        ShardMessage::ShardSyncResponse { shard_id: s, sync_data } => ShardAction::ApplySync {
            shard_id: s,
            sync_data,
        },
        ShardMessage::CrossShardTransactionMessage { transaction, source_shard_id, target_shard_id } =>
            ShardAction::Send {
            shard_id: target_shard_id,
            message: ShardMessage::CrossShardTransactionMessage {
                transaction,
                source_shard_id,
                target_shard_id,
            },
        },
        ShardMessage::ShardBlockProposalMessage { block, shard_id: s } => ShardAction::Broadcast {
            shard_id: s,
            message: ShardMessage::ShardBlockProposalMessage { block, shard_id: s },
        },
        ShardMessage::ShardBlockCommitMessage { block_hash, shard_id: s } => ShardAction::Broadcast {
            shard_id: s,
            message: ShardMessage::ShardBlockCommitMessage { block_hash, shard_id: s },
        },
    }
}

/// The keys of the quantum key exchanges held for each shard, and the
/// decisions taken on the messages that arrive from the shards.
pub struct ShardMessageHandler {
    qkd_private_keys: HashMap<u64, QKDKey>,
    qkd_public_keys: HashMap<u64, QKDKey>,
}

impl ShardMessageHandler {
    /// The private QKD keys kept for each shard.
    pub closed spec fn private_keys(&self) -> Map<u64, QKDKey> {
        self.qkd_private_keys@
    }

    /// The public QKD keys received from each shard.
    pub closed spec fn public_keys(&self) -> Map<u64, QKDKey> {
        self.qkd_public_keys@
    }

    pub fn new() -> (h: Self)
        ensures
            h.private_keys() == Map::<u64, QKDKey>::empty(),
            h.public_keys() == Map::<u64, QKDKey>::empty(),
    {
        ShardMessageHandler { qkd_private_keys: HashMap::new(), qkd_public_keys: HashMap::new() }
    }

    /// Keeps `key` as the private QKD key for shard `shard_id`.
    pub fn store_private_key(&mut self, shard_id: u64, key: QKDKey)
        ensures
            final(self).private_keys() == old(self).private_keys().insert(shard_id, key),
            final(self).public_keys() == old(self).public_keys(),
    {
        self.qkd_private_keys.insert(shard_id, key);
    }

    /// Whether both QKD keys are held for shard `shard_id`.
    pub fn has_keys(&self, shard_id: u64) -> (b: bool)
        ensures
            b == (self.private_keys().contains_key(shard_id) && self.public_keys().contains_key(
                shard_id,
            )),
    {
        self.qkd_private_keys.contains_key(&shard_id) && self.qkd_public_keys.contains_key(&shard_id)
    }

    /// Decides the answer to `message`, received from shard `shard_id`, and
    /// keeps the public key of a QKD key response.
    ///
    /// Measurement results can only be answered for a shard whose keys are held.
    pub fn answer_message(&mut self, shard_id: u64, message: ShardMessage) -> (a: ShardAction)
        requires
            message is QuantumStateMeasurementResultsShard ==> (old(self).private_keys().contains_key(
                shard_id,
            ) && old(self).public_keys().contains_key(shard_id)),
        ensures
            a == shard_action(shard_id, message),
            final(self).private_keys() == old(self).private_keys(),
            final(self).public_keys() == (match message {
                ShardMessage::QKDKeyResponseShard(key) => old(self).public_keys().insert(shard_id, key),
                _ => old(self).public_keys(),
            }),
    {
        match message {
            ShardMessage::TransactionMessage(transaction) => ShardAction::ProcessTransaction {
                shard_id,
                transaction,
            },
            ShardMessage::StateRequest { shard_id: s } => ShardAction::SendShardState { shard_id: s },
            ShardMessage::QKDKeyRequestShard => ShardAction::IssueQkdKey { shard_id },
            ShardMessage::QKDKeyResponseShard(key) => {
                self.qkd_public_keys.insert(shard_id, key);
                ShardAction::Send { shard_id, message: ShardMessage::QKDKeyConfirmationShard }
            },
            ShardMessage::QKDKeyConfirmationShard => ShardAction::KeyExchangeComplete { shard_id },
            ShardMessage::QuantumStateMeasurementResultsShard(results) => {
                ShardAction::SendMeasurementResults { shard_id, results }
            },
            ShardMessage::ShardSyncRequest { shard_id: s, sync_hash } => {
                ShardAction::AnswerSyncRequest { shard_id: s, sync_hash }
            },
            ShardMessage::ShardSyncResponse { shard_id: s, sync_data } => ShardAction::ApplySync {
                shard_id: s,
                sync_data,
            },
            ShardMessage::CrossShardTransactionMessage {
                transaction,
                source_shard_id,
                target_shard_id,
            } => ShardAction::Send {
                shard_id: target_shard_id,
                message: ShardMessage::CrossShardTransactionMessage {
                    transaction,
                    source_shard_id,
                    target_shard_id,
                },
            },
            ShardMessage::ShardBlockProposalMessage { block, shard_id: s } => ShardAction::Broadcast {
                shard_id: s,
                message: ShardMessage::ShardBlockProposalMessage { block, shard_id: s },
            },
            ShardMessage::ShardBlockCommitMessage { block_hash, shard_id: s } =>
                ShardAction::Broadcast {
                shard_id: s,
                message: ShardMessage::ShardBlockCommitMessage { block_hash, shard_id: s },
            },
        }
    }

    /// Reads a serialized message from shard `shard_id` and decides the answer
    /// to it. A message that cannot be read is dropped, and so are
    /// measurement results from a shard whose keys are not held; both give
    /// no answer and change nothing.
    pub fn handle_message(&mut self, shard_id: u64, serialized_message: Vec<u8>) -> (r: Option<ShardAction>)
        ensures
            received_shard_message(serialized_message@) is None ==> r is None && final(self).public_keys() == old(
                self,
            ).public_keys(),
            received_shard_message(serialized_message@) matches Some(m) && m is QuantumStateMeasurementResultsShard
                && !(old(self).private_keys().contains_key(shard_id) && old(self).public_keys().contains_key(
                shard_id,
            )) ==> r is None && final(self).public_keys() == old(self).public_keys(),
            r matches Some(a) ==> exists|m: ShardMessage|
                received_shard_message(serialized_message@) == Some(m@) && #[trigger] shard_action(shard_id, m) == a
                    && final(self).public_keys() == (match m {
                    ShardMessage::QKDKeyResponseShard(key) => old(self).public_keys().insert(shard_id, key),
                    _ => old(self).public_keys(),
                }),
            received_shard_message(serialized_message@) matches Some(m) && !(m is QuantumStateMeasurementResultsShard
                && !(old(self).private_keys().contains_key(shard_id) && old(self).public_keys().contains_key(
                shard_id,
            ))) ==> r is Some,
            final(self).private_keys() == old(self).private_keys(),
    {
        let message = match ShardMessage::deserialize(serialized_message.as_slice()) {
            Ok(m) => m,
            Err(_) => {
                return None;
            },
        };
        let is_measurement = match &message {
            ShardMessage::QuantumStateMeasurementResultsShard(_) => true,
            _ => false,
        };
        if is_measurement && !self.has_keys(shard_id) {
            return None;
        }
        let ghost received = message;
        let action = self.answer_message(shard_id, message);
        assert(shard_action(shard_id, received) == action);
        Some(action)
    }
}

/// The answer to a sync request for shard `shard_id` that carries
/// `sync_hash`, where the shard's own state hashes to `state_hash` and
/// serializes to `state`: nothing when the hashes agree (the requester is in
/// sync), else the serialized state.
pub fn sync_response(shard_id: u64, sync_hash: &str, state_hash: &str, state: Vec<u8>) -> (r: Option<
    ShardMessage,
>)
    ensures
        sync_hash@ == state_hash@ ==> r is None,
        sync_hash@ != state_hash@ ==> r == Some(
            ShardMessage::ShardSyncResponse { shard_id, sync_data: state },
        ),
{
    let requested = String::from_str(sync_hash);
    let local = String::from_str(state_hash);
    if requested == local {
        None
    } else {
        Some(ShardMessage::ShardSyncResponse { shard_id, sync_data: state })
    }
}

} // verus!
