use vstd::prelude::*;
use vstd::bytes::{
    lemma_auto_spec_u64_to_from_le_bytes, spec_u64_from_le_bytes, spec_u64_to_le_bytes,
    u64_from_le_bytes,
};
use vstd::slice::{slice_subrange, slice_to_vec};
use crate::text::prefixed;

verus! {

/// Failures of quantum-resistant connections.
#[derive(Debug)]
pub enum NetworkError {
    ConnectionError(String),
    SerializationError(String),
    DeserializationError(String),
    CryptoError(String),
    SignatureVerificationFailed(String),
    QuantumChannelNotEstablished,
    QKDError(String),
    ConfigError(String),
}

/// The text shown for a quantum-resistant connection failure.
pub open spec fn quantum_network_error_text(e: &NetworkError) -> Seq<char> {
    match e {
        NetworkError::ConnectionError(m) => "Connection error: "@ + m@,
        NetworkError::SerializationError(m) => "Serialization error: "@ + m@,
        NetworkError::DeserializationError(m) => "Deserialization error: "@ + m@,
        NetworkError::CryptoError(m) => "Cryptographic error: "@ + m@,
        NetworkError::SignatureVerificationFailed(m) => "Signature verification failed: "@ + m@,
        NetworkError::QuantumChannelNotEstablished => "Quantum channel not established"@,
        NetworkError::QKDError(m) => "QKD error: "@ + m@,
        NetworkError::ConfigError(m) => "Configuration error: "@ + m@,
    }
}

impl NetworkError {
    /// The text shown for this failure.
    pub fn to_string(&self) -> (s: String)
        ensures
            s@ == quantum_network_error_text(self),
    {
        match self {
            NetworkError::ConnectionError(m) => prefixed("Connection error: ", m.as_str()),
            NetworkError::SerializationError(m) => prefixed("Serialization error: ", m.as_str()),
            NetworkError::DeserializationError(m) => prefixed("Deserialization error: ", m.as_str()),
            NetworkError::CryptoError(m) => prefixed("Cryptographic error: ", m.as_str()),
            NetworkError::SignatureVerificationFailed(m) => prefixed("Signature verification failed: ", m.as_str()),
            NetworkError::QuantumChannelNotEstablished => String::from_str("Quantum channel not established"),
            NetworkError::QKDError(m) => prefixed("QKD error: ", m.as_str()),
            NetworkError::ConfigError(m) => prefixed("Configuration error: ", m.as_str()),
        }
    }
}

/// The bytes a node sends for a signed message: the message's length as an
/// eight-byte little-endian integer, the (encrypted) message, then the signature.
pub open spec fn signed_message_frame(message: Seq<u8>, signature: Seq<u8>) -> Seq<u8> {
    spec_u64_to_le_bytes(message.len() as u64) + message + signature
}

/// The message length announced at the head of `buf`.
pub open spec fn announced_length(buf: Seq<u8>) -> int {
    spec_u64_from_le_bytes(buf.take(8)) as int
}

/// The failure reported when reading a signed message from `node_id` stops
/// short: `what` names the part that could not be read.
pub open spec fn receive_failure(what: Seq<char>, node_id: Seq<char>) -> Seq<char> {
    "Failed to receive "@ + what + " from node: "@ + node_id
}

/// Splits the bytes received from `node_id` into the message and its
/// signature of `signature_len` bytes. The parts are read in order (length,
/// message, signature); the first one that the bytes cannot supply is the
/// connection error reported. Bytes after the signature are left unread.
pub fn read_signed_message(node_id: &str, buf: &[u8], signature_len: usize) -> (r: Result<
    (Vec<u8>, Vec<u8>),
    NetworkError,
>)
    ensures
        buf@.len() < 8 ==> (r matches Err(NetworkError::ConnectionError(m)) && m@ == receive_failure(
            "message length"@,
            node_id@,
        )),
        buf@.len() >= 8 && buf@.len() - 8 < announced_length(buf@) ==> (r matches Err(
            NetworkError::ConnectionError(m),
        ) && m@ == receive_failure("encrypted message"@, node_id@)),
        buf@.len() >= 8 && buf@.len() - 8 >= announced_length(buf@) && buf@.len() - 8
            - announced_length(buf@) < signature_len ==> (r matches Err(
            NetworkError::ConnectionError(m),
        ) && m@ == receive_failure("signature"@, node_id@)),
        r matches Ok((message, signature)) ==> {
            let n = announced_length(buf@);
            &&& buf@.len() >= 8 + n + signature_len
            &&& message@ == buf@.subrange(8, 8 + n)
            &&& signature@ == buf@.subrange(8 + n, 8 + n + signature_len)
        },
        buf@.len() >= 8 && buf@.len() - 8 - announced_length(buf@) >= signature_len ==> r is Ok,
{
    if buf.len() < 8 {
        return Err(NetworkError::ConnectionError(receive_failure_text("message length", node_id)));
    }
    let head = slice_subrange(buf, 0, 8);
    assert(head@ =~= buf@.take(8));
    let length = u64_from_le_bytes(head);
    if length > (buf.len() - 8) as u64 {
        return Err(NetworkError::ConnectionError(receive_failure_text("encrypted message", node_id)));
    }
    let end = 8 + length as usize;
    if buf.len() - end < signature_len {
        return Err(NetworkError::ConnectionError(receive_failure_text("signature", node_id)));
    }
    let message = slice_to_vec(slice_subrange(buf, 8, end));
    let signature = slice_to_vec(slice_subrange(buf, end, end + signature_len));
    Ok((message, signature))
}

fn receive_failure_text(what: &str, node_id: &str) -> (s: String)
    ensures
        s@ == receive_failure(what@, node_id@),
{
    proof {
        reveal_strlit("Failed to receive ");
        reveal_strlit(" from node: ");
    }
    let s = prefixed("Failed to receive ", what);
    let s = prefixed(s.as_str(), " from node: ");
    prefixed(s.as_str(), node_id)
}

/// A frame holding `message` and `signature` is read back as exactly that
/// message and signature, whatever follows it.
pub proof fn lemma_signed_message_frame_roundtrip(message: Seq<u8>, signature: Seq<u8>, rest: Seq<u8>)
    requires
        message.len() <= u64::MAX,
    ensures
        ({
            let buf = signed_message_frame(message, signature) + rest;
            let n = message.len() as int;
            let k = signature.len() as int;
            &&& buf.len() >= 8
            &&& announced_length(buf) == message.len()
            &&& buf.subrange(8, 8 + n) == message
            &&& buf.subrange(8 + n, 8 + n + k) == signature
        }),
{
    lemma_auto_spec_u64_to_from_le_bytes();
    let buf = signed_message_frame(message, signature) + rest;
    let head = spec_u64_to_le_bytes(message.len() as u64);
    assert(head.len() == 8);
    assert(buf.take(8) =~= head);
    let n = message.len() as int;
    let k = signature.len() as int;
    assert(buf.subrange(8, 8 + n) =~= message);
    assert(buf.subrange(8 + n, 8 + n + k) =~= signature);
}

/// The public and secret key that establishing a connection yields.
pub type ConnectionKeys = (Vec<u8>, Vec<u8>);

/// Where establishing a secure connection stands: the attempt to make next,
/// or the outcome.
#[derive(Debug)]
pub enum EstablishStep {
    /// Try the quantum key exchange.
    TryQuantum,
    /// Try the classical key exchange; `quantum_error` is the text of the
    /// quantum attempt's failure, if one was made.
    TryClassical { quantum_error: Option<String> },
    /// Establishment is over.
    Done(Result<ConnectionKeys, NetworkError>),
}

/// The first attempt: the quantum exchange when quantum features are on,
/// else the classical one.
pub fn establish_start(use_quantum: bool) -> (step: EstablishStep)
    ensures
        use_quantum ==> step is TryQuantum,
        !use_quantum ==> step matches EstablishStep::TryClassical { quantum_error: None },
{
    if use_quantum {
        EstablishStep::TryQuantum
    } else {
        EstablishStep::TryClassical { quantum_error: None }
    }
}

/// The failure reported when only the classical exchange was tried.
pub open spec fn classical_failure(node_id: Seq<char>, classical_error: Seq<char>) -> Seq<char> {
    "Classical establishment failed for node "@ + node_id + ": "@ + classical_error
}

/// The failure reported when the quantum exchange and the classical fallback
/// both failed.
pub open spec fn both_failures(node_id: Seq<char>, quantum_error: Seq<char>, classical_error: Seq<char>) -> Seq<char> {
    "Both quantum and classical establishment failed for node "@ + node_id + ": "@ + quantum_error + ", "@
        + classical_error
}

/// The step after the attempt `step` with node `node_id` gave `outcome` (the
/// keys, or the text of the failure): keys end establishment; a failed
/// quantum exchange falls back to the classical one; a failed classical
/// exchange ends establishment with a connection error that names both
/// failures when the quantum exchange was tried first.
pub fn establish_next(node_id: &str, step: EstablishStep, outcome: Result<ConnectionKeys, String>) -> (next: EstablishStep)
    requires
        !(step is Done),
    ensures
        outcome matches Ok(keys) ==> (next matches EstablishStep::Done(Ok(k)) && k == keys),
        (step is TryQuantum && outcome is Err) ==> (next matches EstablishStep::TryClassical {
            quantum_error: Some(e),
        } && e == outcome->Err_0),
        (step matches EstablishStep::TryClassical { quantum_error: None } && outcome is Err) ==> (
        next matches EstablishStep::Done(Err(NetworkError::ConnectionError(m))) && m@ == classical_failure(
            node_id@,
            outcome->Err_0@,
        )),
        (step is TryClassical && step->quantum_error is Some && outcome is Err) ==> (
        next matches EstablishStep::Done(Err(NetworkError::ConnectionError(m))) && m@ == both_failures(
            node_id@,
            step->quantum_error->0@,
            outcome->Err_0@,
        )),
{
    match outcome {
        Ok(keys) => EstablishStep::Done(Ok(keys)),
        Err(failure) => match step {
            EstablishStep::TryQuantum => EstablishStep::TryClassical { quantum_error: Some(failure) },
            EstablishStep::TryClassical { quantum_error: None } => {
                let m = prefixed("Classical establishment failed for node ", node_id);
                let m = prefixed(m.as_str(), ": ");
                let m = prefixed(m.as_str(), failure.as_str());
                EstablishStep::Done(Err(NetworkError::ConnectionError(m)))
            },
            EstablishStep::TryClassical { quantum_error: Some(q) } => {
                let m = prefixed("Both quantum and classical establishment failed for node ", node_id);
                let m = prefixed(m.as_str(), ": ");
                let m = prefixed(m.as_str(), q.as_str());
                let m = prefixed(m.as_str(), ", ");
                let m = prefixed(m.as_str(), failure.as_str());
                EstablishStep::Done(Err(NetworkError::ConnectionError(m)))
            },
            EstablishStep::Done(r) => EstablishStep::Done(r),
        },
    }
}

/// Keeps the secret keys of established connections.
pub struct KeyManager {}

impl KeyManager {
    pub fn new() -> (k: Self)
        ensures
            k == (KeyManager {}),
    {
        KeyManager {}
    }

    /// Accepts a secret key for safekeeping; storing never fails.
    pub fn store_key(&self, key: &[u8]) -> (r: Result<(), NetworkError>)
        ensures
            r is Ok,
    {
        Ok(())
    }

    /// Rotates the stored keys; rotation never fails.
    pub fn rotate_keys(&self) -> (r: Result<(), NetworkError>)
        ensures
            r is Ok,
    {
        Ok(())
    }
}

} // verus!
