use zephyrchain::network::quantum_resistant::{read_signed_message, NetworkError};

fn frame(message: &[u8], signature: &[u8]) -> Vec<u8> {
    let mut v = (message.len() as u64).to_le_bytes().to_vec();
    v.extend_from_slice(message);
    v.extend_from_slice(signature);
    v
}

fn connection_error(r: Result<(Vec<u8>, Vec<u8>), NetworkError>) -> String {
    match r {
        Err(NetworkError::ConnectionError(m)) => m,
        _ => panic!("expected a connection error"),
    }
}

#[test]
fn frame_is_split_into_message_and_signature() {
    let buf = frame(&[1, 2, 3], &[9, 8]);
    assert_eq!(read_signed_message("n", &buf, 2).unwrap(), (vec![1, 2, 3], vec![9, 8]));
}

#[test]
fn bytes_after_the_signature_are_left() {
    let mut buf = frame(&[], &[7]);
    buf.extend_from_slice(&[5, 5, 5]);
    assert_eq!(read_signed_message("n", &buf, 1).unwrap(), (vec![], vec![7]));
}

#[test]
fn missing_length_is_reported() {
    let e = connection_error(read_signed_message("node-a", &[1, 2, 3], 0));
    assert_eq!(e, "Failed to receive message length from node: node-a");
}

#[test]
fn missing_message_is_reported() {
    let mut buf = frame(&[1, 2, 3], &[]);
    buf.pop();
    let e = connection_error(read_signed_message("node-b", &buf, 0));
    assert_eq!(e, "Failed to receive encrypted message from node: node-b");
}

#[test]
fn huge_length_is_a_missing_message() {
    let buf = u64::MAX.to_le_bytes().to_vec();
    let e = connection_error(read_signed_message("x", &buf, 0));
    assert_eq!(e, "Failed to receive encrypted message from node: x");
}

#[test]
fn missing_signature_is_reported() {
    let buf = frame(&[1], &[2, 3]);
    let e = connection_error(read_signed_message("node-c", &buf, 3));
    assert_eq!(e, "Failed to receive signature from node: node-c");
}
