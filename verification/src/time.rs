//! Wall-clock timestamps, read from the system clock through chrono.

use vstd::prelude::*;

verus! {

/// A point in UTC time: whole seconds since the Unix epoch and the
/// nanoseconds past that second.
#[derive(Clone, Copy, Debug, PartialEq, Eq, Structural)]
pub struct Timestamp {
    pub secs: i64,
    pub nanos: u32,
}

impl Timestamp {
    /// A timestamp that the system clock can produce: not before the epoch,
    /// with the sub-second part below one second.
    pub open spec fn is_clock_reading(self) -> bool {
        self.secs >= 0 && self.nanos < 1_000_000_000
    }
}

/// Reads `chrono::Utc::now()` and splits it into seconds and nanoseconds
/// (`DateTime::timestamp` and `DateTime::timestamp_subsec_nanos`).
/// chrono builds the value from `SystemTime::now().duration_since(UNIX_EPOCH)`,
/// so the seconds are never negative and the nanoseconds are those of a
/// `Duration`, below one second. Which instant comes back is not stated: it is
/// the machine's clock. chrono panics when the clock is set before 1970.
#[verifier::external_body]
pub fn now() -> (t: Timestamp)
    ensures
        t.is_clock_reading(),
{
    let dt = chrono::Utc::now();
    Timestamp { secs: dt.timestamp(), nanos: dt.timestamp_subsec_nanos() }
}

} // verus!
