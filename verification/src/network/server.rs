//! What the server does with each message a connected peer sends.

use vstd::prelude::*;
use crate::network::protocol::{MessageModel, ProtocolMessage, QKDKey};
use crate::network::protocol::codec::received_message;

verus! {

/// The server's next step on a peer connection.
#[derive(Debug)]
pub enum ConnectionStep {
    /// Send this message back to the peer.
    Reply(ProtocolMessage),
    /// Nothing to do; wait for the next message.
    Ignore,
    /// Make a QKD key pair, send the public key to the peer and keep the private one.
    AnswerQkdKeyRequest,
    /// Take the peer's QKD public key and answer it.
    AnswerQkdKeyResponse(QKDKey),
    /// The peer confirmed the QKD key exchange.
    ConfirmQkdKey,
    /// Handle the peer's quantum measurement results.
    HandleMeasurementResults(Vec<bool>),
    /// Hand the message to the node's message handler and send its response back.
    Dispatch(ProtocolMessage),
    /// The connection ends and the peer is forgotten.
    Close,
}

/// Whether `step` is the server's answer to the message `m`: a ping is
/// answered with a pong, a pong is ignored, the QKD exchange and measurement
/// results are handled on the connection, anything else goes to the handler.
pub open spec fn answers(step: ConnectionStep, m: MessageModel) -> bool {
    match m {
        MessageModel::Ping => step matches ConnectionStep::Reply(r) && r@ == MessageModel::Pong,
        MessageModel::Pong => step is Ignore,
        MessageModel::QKDKeyRequest => step is AnswerQkdKeyRequest,
        MessageModel::QKDKeyResponse => step is AnswerQkdKeyResponse,
        MessageModel::QKDKeyConfirmation => step is ConfirmQkdKey,
        MessageModel::QuantumStateMeasurementResults { results } => step matches ConnectionStep::HandleMeasurementResults(
            r,
        ) && r@ == results,
        _ => step matches ConnectionStep::Dispatch(d) && d@ == m,
    }
}

/// The message a connection delivered, if it delivered bytes that read back
/// as one.
pub open spec fn received_model(received: Option<Vec<u8>>) -> Option<MessageModel> {
    match received {
        Some(bytes) => received_message(bytes@),
        None => None,
    }
}

/// Every message the server does not handle on the connection goes, unchanged,
/// to the node's message handler; a ping is answered with a pong.
pub proof fn lemma_other_messages_are_dispatched(step: ConnectionStep, m: MessageModel)
    requires
        answers(step, m),
    ensures
        !(m is Ping || m is Pong || m is QKDKeyRequest || m is QKDKeyResponse || m is QKDKeyConfirmation
            || m is QuantumStateMeasurementResults) ==> (step matches ConnectionStep::Dispatch(d) && d@ == m),
        m is Ping ==> (step matches ConnectionStep::Reply(r) && r@ == MessageModel::Pong),
        m is Pong ==> step is Ignore,
{
}

/// The server's step after receiving from a peer: `received` is what the
/// connection delivered, nothing when receiving failed. A failed receive, or
/// bytes that are not a serialized message, end the connection.
pub fn connection_step(received: Option<Vec<u8>>) -> (step: ConnectionStep)
    ensures
        received is None ==> step is Close,
        received matches Some(bytes) ==> match received_message(bytes@) {
            None => step is Close,
            Some(m) => answers(step, m),
        },
        ({
            let m = received_model(received)->0;
            received_model(received) is Some && !(m is Ping || m is Pong || m is QKDKeyRequest || m is QKDKeyResponse
                || m is QKDKeyConfirmation || m is QuantumStateMeasurementResults) ==> (step matches ConnectionStep::Dispatch(
                d,
            ) && d@ == m)
        }),
        received_model(received) is Some && received_model(received)->0 is Ping ==> (step matches ConnectionStep::Reply(
            r,
        ) && r@ == MessageModel::Pong),
{
    let bytes = match received {
        Some(b) => b,
        None => {
            return ConnectionStep::Close;
        },
    };
    let message = match ProtocolMessage::deserialize(bytes.as_slice()) {
        Ok(m) => m,
        Err(_) => {
            return ConnectionStep::Close;
        },
    };
    match message {
        ProtocolMessage::Ping => ConnectionStep::Reply(ProtocolMessage::Pong),
        ProtocolMessage::Pong => ConnectionStep::Ignore,
        ProtocolMessage::QKDKeyRequest => ConnectionStep::AnswerQkdKeyRequest,
        ProtocolMessage::QKDKeyResponse { key } => ConnectionStep::AnswerQkdKeyResponse(key),
        ProtocolMessage::QKDKeyConfirmation => ConnectionStep::ConfirmQkdKey,
        ProtocolMessage::QuantumStateMeasurementResults { results } => ConnectionStep::HandleMeasurementResults(
            results,
        ),
        other => ConnectionStep::Dispatch(other),
    }
}

} // verus!
