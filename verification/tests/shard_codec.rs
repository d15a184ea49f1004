use zephyrchain::chain::block::Block;
use zephyrchain::chain::transaction::Transaction;
use zephyrchain::network::protocol::{ProtocolError, QKDKey};
use zephyrchain::network::shard_message::{ShardAction, ShardMessage, ShardMessageHandler};

fn block() -> Block {
    Block {
        block_number: 12,
        previous_block_hash: "0a1b".to_string(),
        timestamp: -5,
        transactions: vec![Transaction::new(1, 2, 3, 4), Transaction::new(5, 6, 7, u64::MAX)],
        nonce: 99,
        block_reward: 50,
        difficulty: 3,
    }
}

fn every_kind_of_shard_message() -> Vec<ShardMessage> {
    vec![
        ShardMessage::TransactionMessage(Transaction::new(1, 2, 3, 4)),
        ShardMessage::StateRequest { shard_id: 7 },
        ShardMessage::QKDKeyRequestShard,
        ShardMessage::QKDKeyResponseShard(QKDKey {}),
        ShardMessage::QKDKeyConfirmationShard,
        ShardMessage::QuantumStateMeasurementResultsShard(vec![true, false]),
        ShardMessage::ShardSyncRequest { shard_id: 1, sync_hash: "abc".to_string() },
        ShardMessage::ShardSyncResponse { shard_id: 2, sync_data: vec![9, 8, 7] },
        ShardMessage::CrossShardTransactionMessage {
            transaction: Transaction::new(9, 9, 9, 9),
            source_shard_id: 1,
            target_shard_id: 2,
        },
        ShardMessage::ShardBlockProposalMessage { block: block(), shard_id: 4 },
        ShardMessage::ShardBlockCommitMessage { block_hash: "ffee".to_string(), shard_id: 4 },
    ]
}

fn same(a: &ShardMessage, b: &ShardMessage) -> bool {
    format!("{:?}", a) == format!("{:?}", b)
}

#[test]
fn every_shard_message_survives_encoding() {
    for m in every_kind_of_shard_message() {
        let decoded = ShardMessage::decode(&m.encode()).unwrap();
        assert!(same(&decoded, &m));
    }
}

#[test]
fn every_shard_message_survives_serialization() {
    for m in every_kind_of_shard_message() {
        let decoded = ShardMessage::deserialize(&m.serialize().unwrap()).unwrap();
        assert!(same(&decoded, &m));
    }
}

#[test]
fn state_request_wire_bytes() {
    assert_eq!(ShardMessage::StateRequest { shard_id: 7 }.encode(), vec![1, 7, 0, 0, 0, 0, 0, 0, 0]);
}

#[test]
fn transaction_message_wire_bytes() {
    let bytes = ShardMessage::TransactionMessage(Transaction::new(1, 2, 3, 4)).encode();
    let mut expected = vec![0u8];
    for v in [1u64, 2, 3, 4] {
        expected.extend_from_slice(&v.to_le_bytes());
    }
    assert_eq!(bytes, expected);
}

#[test]
fn negative_timestamp_survives() {
    let m = ShardMessage::ShardBlockProposalMessage { block: block(), shard_id: 4 };
    match ShardMessage::decode(&m.encode()) {
        Some(ShardMessage::ShardBlockProposalMessage { block, shard_id: 4 }) => {
            assert_eq!(block.timestamp, -5);
            assert_eq!(block.transactions.len(), 2);
        }
        _ => panic!("expected a block proposal"),
    }
}

#[test]
fn transaction_list_of_wrong_length_is_refused() {
    let mut bytes = vec![9u8];
    bytes.extend_from_slice(&1u64.to_le_bytes());
    bytes.extend_from_slice(&0u64.to_le_bytes());
    bytes.extend_from_slice(&0u64.to_le_bytes());
    bytes.extend_from_slice(&3u64.to_le_bytes());
    for v in [1u64, 2, 3] {
        bytes.extend_from_slice(&v.to_le_bytes());
    }
    for v in [0u64, 0, 0, 0] {
        bytes.extend_from_slice(&v.to_le_bytes());
    }
    assert!(ShardMessage::decode(&bytes).is_none());
}

#[test]
fn unknown_tag_and_trailing_bytes_are_refused() {
    assert!(ShardMessage::decode(&[11]).is_none());
    assert!(ShardMessage::decode(&[]).is_none());
    assert!(ShardMessage::decode(&[2, 0]).is_none());
    assert!(ShardMessage::decode(&[2]).is_some());
}

#[test]
fn serialized_shard_message_is_a_zstd_frame() {
    let m = ShardMessage::StateRequest { shard_id: 7 };
    let data = m.serialize().unwrap();
    assert_eq!(&data[..4], &[0x28, 0xb5, 0x2f, 0xfd]);
    assert!(matches!(ShardMessage::deserialize(&m.encode()), Err(ProtocolError::DecompressionFailed(_))));
}

#[test]
fn serialized_message_is_handled() {
    let mut h = ShardMessageHandler::new();
    let data = ShardMessage::StateRequest { shard_id: 3 }.serialize().unwrap();
    assert!(matches!(h.handle_message(1, data.clone()), Some(ShardAction::SendShardState { shard_id: 3 })));
}

#[test]
fn unreadable_message_is_dropped() {
    let mut h = ShardMessageHandler::new();
    assert!(h.handle_message(1, vec![1, 2, 3]).is_none());
}

#[test]
fn measurement_results_without_keys_are_dropped() {
    let mut h = ShardMessageHandler::new();
    let data = ShardMessage::QuantumStateMeasurementResultsShard(vec![true]).serialize().unwrap();
    assert!(h.handle_message(2, data.clone()).is_none());
    h.store_private_key(2, QKDKey {});
    let key = ShardMessage::QKDKeyResponseShard(QKDKey {}).serialize().unwrap();
    assert!(h.handle_message(2, key.clone()).is_some());
    assert!(matches!(
        h.handle_message(2, data.clone()),
        Some(ShardAction::SendMeasurementResults { shard_id: 2, .. })
    ));
}
