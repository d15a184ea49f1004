use vstd::prelude::*;

verus! {

/// Failures of marketplace operations, each carrying a message.
#[derive(Debug)]
pub enum MarketplaceError {
    InvalidTaskError(String),
    InvalidBidError(String),
    TaskAssignmentError(String),
    RewardDistributionError(String),
    NetworkError(String),
}

/// The numeric code of each kind of marketplace failure.
pub open spec fn marketplace_error_code(e: &MarketplaceError) -> u32 {
    match e {
        MarketplaceError::InvalidTaskError(_) => 1001,
        MarketplaceError::InvalidBidError(_) => 1002,
        MarketplaceError::TaskAssignmentError(_) => 1003,
        MarketplaceError::RewardDistributionError(_) => 1004,
        MarketplaceError::NetworkError(_) => 1005,
    }
}

/// The human-readable text of a marketplace failure: a prefix naming its kind,
/// followed by its message.
pub open spec fn marketplace_error_text(e: &MarketplaceError) -> Seq<char> {
    match e {
        MarketplaceError::InvalidTaskError(m) => "Invalid Task: "@ + m@,
        MarketplaceError::InvalidBidError(m) => "Invalid Bid: "@ + m@,
        MarketplaceError::TaskAssignmentError(m) => "Task Assignment Error: "@ + m@,
        MarketplaceError::RewardDistributionError(m) => "Reward Distribution Error: "@ + m@,
        MarketplaceError::NetworkError(m) => "Network Error: "@ + m@,
    }
}

impl MarketplaceError {
    /// The numeric code of this failure.
    pub fn code(&self) -> (c: u32)
        ensures
            c == marketplace_error_code(self),
    {
        match self {
            MarketplaceError::InvalidTaskError(_) => 1001,
            MarketplaceError::InvalidBidError(_) => 1002,
            MarketplaceError::TaskAssignmentError(_) => 1003,
            MarketplaceError::RewardDistributionError(_) => 1004,
            MarketplaceError::NetworkError(_) => 1005,
        }
    }

    /// The text shown for this failure.
    pub fn to_string(&self) -> (s: String)
        ensures
            s@ == marketplace_error_text(self),
    {
        let (prefix, msg) = match self {
            MarketplaceError::InvalidTaskError(m) => ("Invalid Task: ", m),
            MarketplaceError::InvalidBidError(m) => ("Invalid Bid: ", m),
            MarketplaceError::TaskAssignmentError(m) => ("Task Assignment Error: ", m),
            MarketplaceError::RewardDistributionError(m) => ("Reward Distribution Error: ", m),
            MarketplaceError::NetworkError(m) => ("Network Error: ", m),
        };
        let mut s = String::from_str(prefix);
        s.append(msg.as_str());
        s
    }
}

} // verus!
