use zephyrchain::hdcmodels::qup_integration::qup_error_correction::QuantumErrorCorrectionError;
use zephyrchain::network::error::NetworkError;
use zephyrchain::network::quantum_resistant::{KeyManager, NetworkError as QuantumNetworkError};

#[test]
fn network_error_texts() {
    let cases = vec![
        (NetworkError::ConnectionError("c".to_string()), "Connection error: c"),
        (NetworkError::HandshakeError("h".to_string()), "Handshake error: h"),
        (NetworkError::MessageError("m".to_string()), "Message error: m"),
        (NetworkError::ProtocolError("p".to_string()), "Protocol error: p"),
        (NetworkError::PeerError("e".to_string()), "Peer error: e"),
        (NetworkError::DiscoveryError("d".to_string()), "Discovery error: d"),
        (NetworkError::TlsError("t".to_string()), "TLS error: t"),
        (NetworkError::Other("o".to_string()), "Other error: o"),
    ];
    for (e, text) in cases {
        assert_eq!(e.to_string(), text);
    }
}

#[test]
fn quantum_network_error_texts() {
    let cases = vec![
        (QuantumNetworkError::ConnectionError("c".to_string()), "Connection error: c"),
        (QuantumNetworkError::SerializationError("s".to_string()), "Serialization error: s"),
        (QuantumNetworkError::DeserializationError("d".to_string()), "Deserialization error: d"),
        (QuantumNetworkError::CryptoError("k".to_string()), "Cryptographic error: k"),
        (QuantumNetworkError::SignatureVerificationFailed("v".to_string()), "Signature verification failed: v"),
        (QuantumNetworkError::QuantumChannelNotEstablished, "Quantum channel not established"),
        (QuantumNetworkError::QKDError("q".to_string()), "QKD error: q"),
        (QuantumNetworkError::ConfigError("f".to_string()), "Configuration error: f"),
    ];
    for (e, text) in cases {
        assert_eq!(e.to_string(), text);
    }
}

#[test]
fn error_correction_texts() {
    assert_eq!(
        QuantumErrorCorrectionError::CorrectionError("noise".to_string()).to_string(),
        "Error during quantum error correction: noise"
    );
    assert_eq!(QuantumErrorCorrectionError::InvalidEncodedData.to_string(), "Invalid encoded data");
}

#[test]
fn key_manager_never_fails() {
    let k = KeyManager::new();
    assert!(k.store_key(&[1, 2, 3]).is_ok());
    assert!(k.rotate_keys().is_ok());
}
