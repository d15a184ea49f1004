use zephyrchain::network::handler::{HandlerImpl, StateSyncAction};
use zephyrchain::network::peer_discovery::PeerDiscovery;
use zephyrchain::network::quantum_resistant::{establish_next, establish_start, EstablishStep, NetworkError};
use zephyrchain::network::sync::state_sync::{ShardStateDelta, StateSyncMessage};

fn keys() -> (Vec<u8>, Vec<u8>) {
    (vec![1, 2, 3], vec![9, 8])
}

#[test]
fn state_request_is_answered_with_the_shard_state() {
    let h = HandlerImpl::new();
    let a = h.handle_state_sync(StateSyncMessage::RequestState { shard_id: 4 }, false);
    assert!(matches!(a, StateSyncAction::SendState { shard_id: 4 }));
}

#[test]
fn signed_state_response_is_applied() {
    let h = HandlerImpl::new();
    let msg = StateSyncMessage::StateResponse { shard_id: 2, state: vec![7, 7], signature: vec![1] };
    match h.handle_state_sync(msg, true) {
        StateSyncAction::ApplyState { shard_id, state } => {
            assert_eq!(shard_id, 2);
            assert_eq!(state, vec![7, 7]);
        }
        other => panic!("unexpected action {:?}", other),
    }
}

#[test]
fn badly_signed_state_response_is_rejected() {
    let h = HandlerImpl::new();
    let msg = StateSyncMessage::StateResponse { shard_id: 2, state: vec![7, 7], signature: vec![1] };
    assert!(matches!(h.handle_state_sync(msg, false), StateSyncAction::RejectState { shard_id: 2 }));
}

#[test]
fn state_deltas_are_ignored() {
    let h = HandlerImpl::new();
    let request = StateSyncMessage::StateDeltaRequest { shard_id: 1, last_sync_hash: "h".to_string() };
    assert!(matches!(h.handle_state_sync(request, true), StateSyncAction::Ignore));
    let delta = ShardStateDelta { transactions: vec![], blocks: vec![] };
    let response = StateSyncMessage::StateDeltaResponse { shard_id: 1, state_delta: delta, signature: vec![] };
    assert!(matches!(h.handle_state_sync(response, true), StateSyncAction::Ignore));
}

#[test]
fn establishment_starts_with_the_configured_exchange() {
    assert!(matches!(establish_start(true), EstablishStep::TryQuantum));
    assert!(matches!(establish_start(false), EstablishStep::TryClassical { quantum_error: None }));
}

#[test]
fn keys_end_establishment() {
    let next = establish_next("n1", EstablishStep::TryQuantum, Ok(keys()));
    match next {
        EstablishStep::Done(Ok(k)) => assert_eq!(k, keys()),
        other => panic!("unexpected step {:?}", other),
    }
}

#[test]
fn failed_quantum_exchange_falls_back_to_classical() {
    let next = establish_next("n1", EstablishStep::TryQuantum, Err("qkd down".to_string()));
    match next {
        EstablishStep::TryClassical { quantum_error: Some(q) } => assert_eq!(q, "qkd down"),
        other => panic!("unexpected step {:?}", other),
    }
}

#[test]
fn failed_classical_exchange_names_the_node() {
    let step = EstablishStep::TryClassical { quantum_error: None };
    match establish_next("n1", step, Err("pqc down".to_string())) {
        EstablishStep::Done(Err(NetworkError::ConnectionError(m))) => {
            assert_eq!(m, "Classical establishment failed for node n1: pqc down")
        }
        other => panic!("unexpected step {:?}", other),
    }
}

#[test]
fn failed_fallback_names_both_failures() {
    let step = EstablishStep::TryClassical { quantum_error: Some("qkd down".to_string()) };
    match establish_next("n1", step, Err("pqc down".to_string())) {
        EstablishStep::Done(Err(NetworkError::ConnectionError(m))) => {
            assert_eq!(m, "Both quantum and classical establishment failed for node n1: qkd down, pqc down")
        }
        other => panic!("unexpected step {:?}", other),
    }
}

#[test]
fn fallback_keys_end_establishment() {
    let step = EstablishStep::TryClassical { quantum_error: Some("qkd down".to_string()) };
    assert!(matches!(establish_next("n1", step, Ok(keys())), EstablishStep::Done(Ok(_))));
}

#[test]
fn discovery_keeps_bootstrap_nodes_in_order() {
    let nodes = vec!["b".to_string(), "a".to_string(), "c".to_string()];
    let d = PeerDiscovery::new(nodes.clone());
    assert_eq!(d.bootstrap_nodes(), &nodes);
}
