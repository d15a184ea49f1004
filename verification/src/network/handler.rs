use vstd::prelude::*;
use crate::network::sync::state_sync::StateSyncMessage;

verus! {

/// What the handler does with a state synchronisation message from a peer.
#[derive(Debug)]
pub enum StateSyncAction {
    /// Fetch the state of shard `shard_id`, sign it, and send it back to the
    /// requesting peer as a `StateResponse` for that shard.
    SendState { shard_id: u64 },
    /// Replace the local state of shard `shard_id` by `state`.
    ApplyState { shard_id: u64, state: Vec<u8> },
    /// The state received for shard `shard_id` carries an invalid signature:
    /// it is refused and nothing changes.
    RejectState { shard_id: u64 },
    /// Nothing to do: deltas are not handled here.
    Ignore,
}

/// The answer to a state synchronisation message, where `signature_valid`
/// tells whether the signature of a state response checks out: a request is
/// answered with that shard's signed state, a response is applied only when
/// its signature is valid.
pub open spec fn state_sync_answer(message: StateSyncMessage, signature_valid: bool) -> StateSyncAction {
    match message {
        StateSyncMessage::RequestState { shard_id } => StateSyncAction::SendState { shard_id },
        StateSyncMessage::StateResponse { shard_id, state, .. } => if signature_valid {
            StateSyncAction::ApplyState { shard_id, state }
        } else {
            StateSyncAction::RejectState { shard_id }
        },
        _ => StateSyncAction::Ignore,
    }
}

/// The node's handler of peer messages; it keeps no state of its own.
pub struct HandlerImpl {}

impl HandlerImpl {
    pub fn new() -> (h: Self)
        ensures
            h == (HandlerImpl {}),
    {
        HandlerImpl {}
    }

    /// Decides what to do with a state synchronisation message from a peer;
    /// `signature_valid` is the outcome of checking the signature of a state
    /// response against its state.
    pub fn handle_state_sync(&self, state_sync_message: StateSyncMessage, signature_valid: bool) -> (a: StateSyncAction)
        ensures
            a == state_sync_answer(state_sync_message, signature_valid),
    {
        match state_sync_message {
            StateSyncMessage::RequestState { shard_id } => StateSyncAction::SendState { shard_id },
            StateSyncMessage::StateResponse { shard_id, state, .. } => {
                if signature_valid {
                    StateSyncAction::ApplyState { shard_id, state }
                } else {
                    StateSyncAction::RejectState { shard_id }
                }
            },
            _ => StateSyncAction::Ignore,
        }
    }
}

} // verus!
