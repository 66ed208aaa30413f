//! Moments in time.
use vstd::prelude::*;

verus! {

/// A moment, counted from the start of 1970 in UTC.
#[derive(Clone, Copy, Debug, PartialEq, Eq, PartialOrd, Ord, Hash, Structural)]
pub struct Timestamp {
    /// Whole seconds.
    pub secs: i64,
    /// Nanoseconds on top of the seconds.
    pub nanos: u32,
}

/// `chrono::Utc::now`: the moment of the call. Nothing is claimed of its value.
#[verifier::external_body]
pub(crate) fn now() -> (r: Timestamp)
{
    let t = chrono::Utc::now();
    Timestamp { secs: t.timestamp(), nanos: t.timestamp_subsec_nanos() }
}

} // verus!
