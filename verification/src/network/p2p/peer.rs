use vstd::prelude::*;

verus! {

/// Failures of a peer connection.
#[derive(Debug)]
pub enum PeerError {
    SendError(String),
    ReceiveError,
    TLSError(String),
}

} // verus!
