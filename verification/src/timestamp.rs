//! Timestamps made from a time given as seconds and nanoseconds.

use vstd::prelude::*;
use crate::operation::Timestamp;

verus! {

/// A timestamp that is made from the two readings of a calendar time: its
/// whole seconds since the Unix epoch, and the nanoseconds beyond them.
#[derive(Clone, Copy, Debug)]
pub struct ProstTimestamp(pub Timestamp);

/// A count of nanoseconds as the `i32` of the same 32 bits.
pub open spec fn nanos_as_i32(nanos: u32) -> i32 {
    if nanos <= i32::MAX {
        nanos as i32
    } else {
        (nanos - 0x1_0000_0000) as i32
    }
}

impl ProstTimestamp {
    /// The timestamp inside.
    pub fn into_inner(self) -> (inner: Timestamp)
        ensures
            inner == self.0,
    {
        self.0
    }

    /// The timestamp inside, by reference.
    pub fn deref(&self) -> (inner: &Timestamp)
        ensures
            *inner == self.0,
    {
        &self.0
    }

    /// The timestamp of a time whose whole seconds since the Unix epoch
    /// are `seconds` and whose nanoseconds beyond them are `subsec_nanos`.
    /// The nanoseconds keep their value as long as they fit, which those
    /// of a time of day do, a leap second included.
    pub fn from_parts(seconds: i64, subsec_nanos: u32) -> (ts: ProstTimestamp)
        ensures
            ts.0.seconds == seconds,
            ts.0.nanos == nanos_as_i32(subsec_nanos),
            subsec_nanos < 2_000_000_000 ==> ts.0.nanos == subsec_nanos,
    {
        let nanos: i32 = if subsec_nanos <= 0x7fff_ffff {
            subsec_nanos as i32
        } else {
            ((subsec_nanos - 0x8000_0000) as i32) - 0x7fff_ffff - 1
        };
        ProstTimestamp(Timestamp { seconds, nanos })
    }
}

} // verus!
