use vstd::prelude::*;

verus! {

/// A point in time: whole seconds since 1970-01-01 00:00:00 UTC and the nanoseconds past
/// that second.
#[derive(Clone, Copy, Debug, PartialEq, Eq, Structural)]
pub struct Timestamp {
    pub seconds: i64,
    pub nanos: u32,
}

impl Timestamp {
    /// `self` lies strictly after `other`.
    pub open spec fn later_than(self, other: Timestamp) -> bool {
        self.seconds > other.seconds || (self.seconds == other.seconds && self.nanos
            > other.nanos)
    }

    /// Executable form of [`Timestamp::later_than`].
    pub fn is_later_than(&self, other: &Timestamp) -> (later: bool)
        ensures
            later == self.later_than(*other),
    {
        self.seconds > other.seconds || (self.seconds == other.seconds && self.nanos
            > other.nanos)
    }
}

/// `chrono::Utc::now`, read as seconds and nanoseconds: the system clock's time. It lies
/// at or after the epoch and its nanoseconds are below one second.
#[verifier::external_body]
pub(crate) fn now() -> (time: Timestamp)
    ensures
        time.seconds >= 0,
        time.nanos < 1_000_000_000,
{
    let time = chrono::Utc::now();
    Timestamp { seconds: time.timestamp(), nanos: time.timestamp_subsec_nanos() }
}

/// `chrono::Utc::now`, written by `format` as date, time of day to the millisecond, and the
/// letters UTC. Nothing is claimed of the text.
#[verifier::external_body]
pub(crate) fn now_text() -> (text: String) {
    chrono::Utc::now().format("%Y-%m-%d %H:%M:%S%.3f UTC").to_string()
}

} // verus!
