//! Points in time.
use vstd::prelude::*;

verus! {

/// A point in time: whole seconds since the start of 1970 and the nanoseconds
/// after them.
#[derive(Debug, Clone, Copy, PartialEq, Eq, Structural)]
pub struct Timestamp {
    pub secs: i64,
    pub nanos: u32,
}

pub open spec fn at_or_before(a: Timestamp, b: Timestamp) -> bool {
    a.secs < b.secs || a.secs == b.secs && a.nanos <= b.nanos
}

pub open spec fn before(a: Timestamp, b: Timestamp) -> bool {
    a.secs < b.secs || a.secs == b.secs && a.nanos < b.nanos
}

/// Nanoseconds since the start of 1970.
pub open spec fn total_nanos(t: Timestamp) -> int {
    t.secs * 1_000_000_000 + t.nanos
}

impl Timestamp {
    pub fn at_or_before(self, other: Timestamp) -> (yes: bool)
        ensures
            yes == at_or_before(self, other),
    {
        self.secs < other.secs || self.secs == other.secs && self.nanos <= other.nanos
    }

    pub fn before(self, other: Timestamp) -> (yes: bool)
        ensures
            yes == before(self, other),
    {
        self.secs < other.secs || self.secs == other.secs && self.nanos < other.nanos
    }

    /// The nanoseconds since the start of 1970, where an `i64` can hold them.
    pub fn timestamp_nanos_opt(self) -> (nanos: Option<i64>)
        ensures
            match nanos {
                Some(n) => n == total_nanos(self),
                None => total_nanos(self) < i64::MIN || i64::MAX < total_nanos(self),
            },
    {
        let whole: i128 = self.secs as i128 * 1_000_000_000 + self.nanos as i128;
        if whole < -0x8000_0000_0000_0000 || 0x7fff_ffff_ffff_ffff < whole {
            None
        } else {
            Some(whole as i64)
        }
    }
}

} // verus!
