use vstd::prelude::*;

verus! {

/// An instant in UTC: whole seconds since the Unix epoch and the nanoseconds
/// elapsed within that second.
#[derive(Clone, Copy, Debug, PartialEq, Eq, Structural)]
pub struct UtcTimestamp {
    pub seconds: i64,
    pub nanos: u32,
}

impl UtcTimestamp {
    /// Instants are ordered by their seconds, then by their nanoseconds.
    pub open spec fn precedes(self, other: UtcTimestamp) -> bool {
        self.seconds < other.seconds || (self.seconds == other.seconds && self.nanos < other.nanos)
    }

    pub fn new(seconds: i64, nanos: u32) -> (t: UtcTimestamp)
        ensures
            t == (UtcTimestamp { seconds, nanos }),
    {
        UtcTimestamp { seconds, nanos }
    }

    /// Whether `self` is strictly earlier than `other`.
    pub fn is_before(&self, other: &UtcTimestamp) -> (b: bool)
        ensures
            b == self.precedes(*other),
    {
        self.seconds < other.seconds || (self.seconds == other.seconds && self.nanos < other.nanos)
    }
}

/// Reads the current UTC time through `chrono::Utc::now`, taking its
/// `timestamp()` and `timestamp_subsec_nanos()`.
///
/// `Utc::now` builds its value from the whole seconds and the sub-second
/// nanoseconds of the system time since the Unix epoch, so a reading it
/// returns is not before the epoch and holds fewer than a second of
/// nanoseconds. On a system clock set before the epoch `Utc::now` panics
/// instead (an `expect` in chrono); that is the machine's state, not an input
/// that a precondition could exclude. Which instant it reads depends on the
/// system clock and is not stated.
#[verifier::external_body]
pub(crate) fn utc_now() -> (now: UtcTimestamp)
    ensures
        now.seconds >= 0,
        now.nanos < 1_000_000_000,
{
    let now = chrono::Utc::now();
    UtcTimestamp { seconds: now.timestamp(), nanos: now.timestamp_subsec_nanos() }
}

} // verus!
