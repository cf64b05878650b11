//! Instants at which events happen.

use vstd::prelude::*;

verus! {

/// An instant, counted from the Unix epoch.
#[derive(Clone, Copy, Debug, PartialEq, Eq, Structural)]
pub struct Timestamp {
    /// Whole seconds since the epoch.
    pub secs: u64,
    /// Nanoseconds past the last whole second.
    pub nanos: u32,
}

impl Timestamp {
    /// Reads the system clock, by `chrono::Utc::now`.
    ///
    /// Which instant comes back is up to the clock. Its nanoseconds stay below one
    /// second.
    #[verifier::external_body]
    pub(crate) fn now() -> (timestamp: Timestamp)
        ensures
            timestamp.nanos < 1_000_000_000,
    {
        let instant = chrono::Utc::now();
        Timestamp { secs: instant.timestamp() as u64, nanos: instant.timestamp_subsec_nanos() }
    }

    /// Whether this is an instant that the system clock has shown: one that `now` gave.
    pub closed spec fn is_clock_reading(self) -> bool {
        call_ensures(Timestamp::now, (), self)
    }
}

/// A reading of the clock is what the clock gave, and nothing else is one.
pub(crate) broadcast proof fn law_clock_readings_are_read(timestamp: Timestamp)
    ensures
        #[trigger] timestamp.is_clock_reading() <==> call_ensures(Timestamp::now, (), timestamp),
{
}

} // verus!
