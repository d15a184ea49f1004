use zephyrchain::network::protocol::{ProtocolMessage, QKDKey};
use zephyrchain::network::server::{connection_step, ConnectionStep};

fn step_for(message: ProtocolMessage) -> ConnectionStep {
    connection_step(Some(message.serialize().unwrap()))
}

#[test]
fn ping_is_answered_with_pong() {
    assert!(matches!(step_for(ProtocolMessage::Ping), ConnectionStep::Reply(ProtocolMessage::Pong)));
}

#[test]
fn pong_is_ignored() {
    assert!(matches!(step_for(ProtocolMessage::Pong), ConnectionStep::Ignore));
}

#[test]
fn qkd_exchange_is_handled_on_the_connection() {
    assert!(matches!(step_for(ProtocolMessage::QKDKeyRequest), ConnectionStep::AnswerQkdKeyRequest));
    assert!(matches!(
        step_for(ProtocolMessage::QKDKeyResponse { key: QKDKey {} }),
        ConnectionStep::AnswerQkdKeyResponse(_)
    ));
    assert!(matches!(step_for(ProtocolMessage::QKDKeyConfirmation), ConnectionStep::ConfirmQkdKey));
}

#[test]
fn measurement_results_are_handled_on_the_connection() {
    let step = step_for(ProtocolMessage::QuantumStateMeasurementResults { results: vec![false, true] });
    assert!(matches!(step, ConnectionStep::HandleMeasurementResults(ref r) if *r == vec![false, true]));
}

#[test]
fn other_messages_go_to_the_handler() {
    let message = ProtocolMessage::BlockRequest { block_hash: "ff".to_string() };
    assert!(matches!(step_for(message.clone()), ConnectionStep::Dispatch(ref m) if *m == message));
}

#[test]
fn failed_receive_closes_the_connection() {
    assert!(matches!(connection_step(None), ConnectionStep::Close));
}

#[test]
fn garbage_closes_the_connection() {
    assert!(matches!(connection_step(Some(vec![1, 2, 3])), ConnectionStep::Close));
    let unframed = ProtocolMessage::Ping.encode();
    assert!(matches!(connection_step(Some(unframed)), ConnectionStep::Close));
}
