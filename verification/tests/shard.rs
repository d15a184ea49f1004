use zephyrchain::chain::block::Block;
use zephyrchain::chain::transaction::Transaction;
use zephyrchain::network::protocol::QKDKey;
use zephyrchain::network::shard_message::{sync_response, ShardAction, ShardMessage, ShardMessageHandler};
use zephyrchain::network::shard_network::{ShardNetwork, ShardRoute};

fn members(names: &[&str]) -> Vec<String> {
    names.iter().map(|s| s.to_string()).collect()
}

#[test]
fn committee_member_chosen_by_shard_id() {
    let net = ShardNetwork::new();
    let committee = members(&["a", "b", "c"]);
    assert_eq!(net.select_committee_member(0, &committee), "a");
    assert_eq!(net.select_committee_member(4, &committee), "b");
    assert_eq!(net.select_committee_member(8, &committee), "c");
}

#[test]
fn known_shard_is_routed_directly() {
    let mut net = ShardNetwork::new();
    net.update_routing_table(5, members(&["x", "y"]));
    assert!(matches!(net.route(5), ShardRoute::Direct(m) if m == "y"));
}

#[test]
fn unknown_shard_goes_through_relays() {
    let mut net = ShardNetwork::new();
    net.add_relay_node("r1".to_string());
    net.add_relay_node("r2".to_string());
    assert!(matches!(net.route(9), ShardRoute::ViaRelays));
    assert_eq!(net.relay_nodes(), &members(&["r1", "r2"]));
}

#[test]
fn routing_table_update_replaces_committee() {
    let mut net = ShardNetwork::new();
    net.update_routing_table(2, members(&["old"]));
    net.update_routing_table(2, members(&["new1", "new2"]));
    assert!(matches!(net.route(2), ShardRoute::Direct(m) if m == "new1"));
}

fn block() -> Block {
    Block {
        block_number: 3,
        previous_block_hash: "p".to_string(),
        timestamp: 10,
        transactions: vec![],
        nonce: 0,
        block_reward: 1,
        difficulty: 2,
    }
}

#[test]
fn transaction_message_is_processed_for_its_shard() {
    let mut h = ShardMessageHandler::new();
    let tx = Transaction::new(1, 2, 3, 4);
    let a = h.answer_message(7, ShardMessage::TransactionMessage(tx));
    assert!(matches!(a, ShardAction::ProcessTransaction { shard_id: 7, transaction } if transaction == tx));
}

#[test]
fn state_request_names_its_own_shard() {
    let mut h = ShardMessageHandler::new();
    let a = h.answer_message(7, ShardMessage::StateRequest { shard_id: 3 });
    assert!(matches!(a, ShardAction::SendShardState { shard_id: 3 }));
}

#[test]
fn cross_shard_transaction_goes_to_target() {
    let mut h = ShardMessageHandler::new();
    let tx = Transaction::new(1, 2, 3, 4);
    let msg = ShardMessage::CrossShardTransactionMessage { transaction: tx, source_shard_id: 1, target_shard_id: 4 };
    let a = h.answer_message(1, msg);
    assert!(matches!(
        a,
        ShardAction::Send {
            shard_id: 4,
            message: ShardMessage::CrossShardTransactionMessage { source_shard_id: 1, target_shard_id: 4, .. }
        }
    ));
}

#[test]
fn block_proposal_and_commit_are_spread_in_their_shard() {
    let mut h = ShardMessageHandler::new();
    let a = h.answer_message(1, ShardMessage::ShardBlockProposalMessage { block: block(), shard_id: 6 });
    assert!(matches!(
        a,
        ShardAction::Broadcast { shard_id: 6, message: ShardMessage::ShardBlockProposalMessage { shard_id: 6, .. } }
    ));
    let a = h.answer_message(1, ShardMessage::ShardBlockCommitMessage { block_hash: "bh".to_string(), shard_id: 6 });
    assert!(matches!(
        a,
        ShardAction::Broadcast { shard_id: 6, message: ShardMessage::ShardBlockCommitMessage { ref block_hash, shard_id: 6 } }
            if block_hash == "bh"
    ));
}

#[test]
fn qkd_exchange_keeps_keys_and_confirms() {
    let mut h = ShardMessageHandler::new();
    assert!(matches!(h.answer_message(2, ShardMessage::QKDKeyRequestShard), ShardAction::IssueQkdKey { shard_id: 2 }));
    h.store_private_key(2, QKDKey {});
    assert!(!h.has_keys(2));
    let a = h.answer_message(2, ShardMessage::QKDKeyResponseShard(QKDKey {}));
    assert!(matches!(a, ShardAction::Send { shard_id: 2, message: ShardMessage::QKDKeyConfirmationShard }));
    assert!(h.has_keys(2));
    assert!(!h.has_keys(3));
    let a = h.answer_message(2, ShardMessage::QKDKeyConfirmationShard);
    assert!(matches!(a, ShardAction::KeyExchangeComplete { shard_id: 2 }));
}

#[test]
fn measurement_results_are_sent_back_once_keys_are_held() {
    let mut h = ShardMessageHandler::new();
    h.store_private_key(2, QKDKey {});
    h.answer_message(2, ShardMessage::QKDKeyResponseShard(QKDKey {}));
    let a = h.answer_message(2, ShardMessage::QuantumStateMeasurementResultsShard(vec![true, false]));
    assert!(matches!(a, ShardAction::SendMeasurementResults { shard_id: 2, ref results } if *results == vec![true, false]));
}

#[test]
fn sync_messages_name_their_shard() {
    let mut h = ShardMessageHandler::new();
    let a = h.answer_message(1, ShardMessage::ShardSyncRequest { shard_id: 8, sync_hash: "abc".to_string() });
    assert!(matches!(a, ShardAction::AnswerSyncRequest { shard_id: 8, ref sync_hash } if sync_hash == "abc"));
    let a = h.answer_message(1, ShardMessage::ShardSyncResponse { shard_id: 8, sync_data: vec![1, 2] });
    assert!(matches!(a, ShardAction::ApplySync { shard_id: 8, ref sync_data } if *sync_data == vec![1, 2]));
}

#[test]
fn in_sync_shard_needs_no_answer() {
    assert!(sync_response(3, "h1", "h1", vec![1]).is_none());
}

#[test]
fn out_of_sync_shard_gets_the_state() {
    let r = sync_response(3, "h1", "h2", vec![9, 9]);
    assert!(matches!(r, Some(ShardMessage::ShardSyncResponse { shard_id: 3, ref sync_data }) if *sync_data == vec![9, 9]));
}
