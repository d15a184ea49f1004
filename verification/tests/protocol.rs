use zephyrchain::network::protocol::{ProtocolError, ProtocolMessage, QKDKey};

#[test]
fn test_protocol_message_serialization() {
    let message = ProtocolMessage::Ping;
    let serialized = message.serialize().unwrap();
    let deserialized = ProtocolMessage::deserialize(&serialized).unwrap();
    assert_eq!(message, deserialized);
}

#[test]
fn test_classical_key_exchange() {
    let message = ProtocolMessage::ClassicalKeyExchange { public_key: vec![1, 2, 3, 4] };
    let serialized = message.serialize().unwrap();
    let deserialized = ProtocolMessage::deserialize(&serialized).unwrap();
    assert_eq!(message, deserialized);
}

#[test]
fn test_classical_key_exchange_response() {
    let message = ProtocolMessage::ClassicalKeyExchangeResponse { public_key: vec![5, 6, 7, 8] };
    let serialized = message.serialize().unwrap();
    let deserialized = ProtocolMessage::deserialize(&serialized).unwrap();
    assert_eq!(message, deserialized);
}

#[test]
fn test_quantum_key_exchange() {
    let message = ProtocolMessage::QuantumKeyExchange { public_key: vec![9, 10, 11, 12] };
    let serialized = message.serialize().unwrap();
    let deserialized = ProtocolMessage::deserialize(&serialized).unwrap();
    assert_eq!(message, deserialized);
}

#[test]
fn test_quantum_key_exchange_response() {
    let message = ProtocolMessage::QuantumKeyExchangeResponse { public_key: vec![13, 14, 15, 16] };
    let serialized = message.serialize().unwrap();
    let deserialized = ProtocolMessage::deserialize(&serialized).unwrap();
    assert_eq!(message, deserialized);
}

#[test]
fn test_state_sync_request() {
    let message = ProtocolMessage::StateSyncRequest { shard_id: 1 };
    let serialized = message.serialize().unwrap();
    let deserialized = ProtocolMessage::deserialize(&serialized).unwrap();
    assert_eq!(message, deserialized);
}

#[test]
fn test_state_sync_response() {
    let message = ProtocolMessage::StateSyncResponse { shard_id: 1, state: vec![17, 18, 19, 20] };
    let serialized = message.serialize().unwrap();
    let deserialized = ProtocolMessage::deserialize(&serialized).unwrap();
    assert_eq!(message, deserialized);
}

fn every_kind_of_message() -> Vec<ProtocolMessage> {
    vec![
        ProtocolMessage::Ping,
        ProtocolMessage::Pong,
        ProtocolMessage::Handshake {
            version: 2,
            peer_id: "node-1".to_string(),
            peer_address: "/ip4/10.0.0.1/tcp/30333".to_string(),
        },
        ProtocolMessage::BlockRequest { block_hash: "00ab".to_string() },
        ProtocolMessage::PeerDiscovery {
            peer_addresses: vec!["a".to_string(), "".to_string(), "ünïcödé".to_string()],
        },
        ProtocolMessage::StateSyncRequest { shard_id: u64::MAX },
        ProtocolMessage::StateSyncResponse { shard_id: 7, state: vec![] },
        ProtocolMessage::QKDKeyRequest,
        ProtocolMessage::QKDKeyResponse { key: QKDKey {} },
        ProtocolMessage::QKDKeyConfirmation,
        ProtocolMessage::QuantumStateMeasurementResults { results: vec![true, false, true] },
        ProtocolMessage::ClassicalKeyExchange { public_key: vec![0; 300] },
        ProtocolMessage::ClassicalKeyExchangeResponse { public_key: vec![255] },
        ProtocolMessage::QuantumKeyExchange { public_key: vec![1] },
        ProtocolMessage::QuantumKeyExchangeResponse { public_key: vec![2] },
        ProtocolMessage::UsefulWorkProblem { problem: vec![3, 4] },
        ProtocolMessage::FlowControlCredit { credit: 9 },
        ProtocolMessage::FlowControlAck,
        ProtocolMessage::TLSHandshake { version: 3, peer_id: "peer".to_string() },
        ProtocolMessage::TLSKeyExchange { public_key: vec![5, 6] },
        ProtocolMessage::TLSEncryptedMessage { data: vec![7, 8, 9] },
    ]
}

#[test]
fn every_message_kind_survives_serialization() {
    for message in every_kind_of_message() {
        let serialized = message.serialize().unwrap();
        assert_eq!(ProtocolMessage::deserialize(&serialized).unwrap(), message);
    }
}

#[test]
fn every_message_kind_survives_encoding() {
    for message in every_kind_of_message() {
        let encoded = message.encode();
        assert_eq!(ProtocolMessage::decode(&encoded).unwrap(), message);
    }
}

#[test]
fn state_sync_request_wire_bytes() {
    let message = ProtocolMessage::StateSyncRequest { shard_id: 1 };
    assert_eq!(message.encode(), vec![5, 1, 0, 0, 0, 0, 0, 0, 0]);
}

#[test]
fn block_request_wire_bytes() {
    let message = ProtocolMessage::BlockRequest { block_hash: "ab".to_string() };
    assert_eq!(message.encode(), vec![3, 2, 0, 0, 0, 0, 0, 0, 0, b'a', b'b']);
}

#[test]
fn handshake_wire_bytes() {
    let message = ProtocolMessage::Handshake { version: 2, peer_id: "p".to_string(), peer_address: "".to_string() };
    assert_eq!(
        message.encode(),
        vec![2, 2, 0, 0, 0, 1, 0, 0, 0, 0, 0, 0, 0, b'p', 0, 0, 0, 0, 0, 0, 0, 0]
    );
}

#[test]
fn ping_is_one_tag_byte() {
    assert_eq!(ProtocolMessage::Ping.encode(), vec![0]);
    assert_eq!(ProtocolMessage::decode(&[1]).unwrap(), ProtocolMessage::Pong);
}

#[test]
fn empty_bytes_are_refused() {
    assert!(matches!(ProtocolMessage::decode(&[]), Err(ProtocolError::DeserializationFailed(_))));
}

#[test]
fn unknown_tag_is_refused() {
    assert!(matches!(ProtocolMessage::decode(&[99]), Err(ProtocolError::DeserializationFailed(_))));
}

#[test]
fn trailing_bytes_are_refused() {
    assert!(matches!(ProtocolMessage::decode(&[0, 0]), Err(ProtocolError::DeserializationFailed(_))));
}

#[test]
fn truncated_field_is_refused() {
    assert!(matches!(ProtocolMessage::decode(&[5, 1, 0, 0]), Err(ProtocolError::DeserializationFailed(_))));
}

#[test]
fn invalid_utf8_text_is_refused() {
    let bytes = vec![3, 1, 0, 0, 0, 0, 0, 0, 0, 0xff];
    assert!(matches!(ProtocolMessage::decode(&bytes), Err(ProtocolError::DeserializationFailed(_))));
}

#[test]
fn invalid_flag_byte_is_refused() {
    let bytes = vec![10, 1, 0, 0, 0, 0, 0, 0, 0, 2];
    assert!(matches!(ProtocolMessage::decode(&bytes), Err(ProtocolError::DeserializationFailed(_))));
}

#[test]
fn serialized_bytes_are_a_zstd_frame() {
    let message = ProtocolMessage::StateSyncRequest { shard_id: 1 };
    let serialized = message.serialize().unwrap();
    assert_ne!(serialized, message.encode());
    assert_eq!(&serialized[..4], &[0x28, 0xb5, 0x2f, 0xfd]);
}

#[test]
fn uncompressed_bytes_do_not_deserialize() {
    let encoded = ProtocolMessage::StateSyncRequest { shard_id: 1 }.encode();
    assert!(matches!(ProtocolMessage::deserialize(&encoded), Err(ProtocolError::DecompressionFailed(_))));
}

#[test]
fn compressed_garbage_does_not_decode() {
    let frame = zstd::stream::encode_all(&[99u8, 1, 2][..], 1).unwrap();
    assert!(matches!(ProtocolMessage::deserialize(&frame), Err(ProtocolError::DeserializationFailed(_))));
}
