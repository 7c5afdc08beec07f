//! The options a parse runs under: the reference instant for the freshness of
//! `Expires`, and the line-ending dialect of the PGP frame.
use vstd::prelude::*;

use crate::outside::utc_now;

verus! {

/// A UTC instant: whole seconds since the Unix epoch, and nanoseconds into
/// the second.  The nanoseconds may exceed one billion, the way chrono
/// encodes a leap second; the ordering below stays lexicographic.
#[derive(Clone, Copy, Debug, PartialEq, Eq, Structural, Hash)]
pub struct Timestamp {
    pub secs: i64,
    pub nanos: u32,
}

/// Whether instant `a` lies strictly before instant `b`.
pub open spec fn ts_before(a: Timestamp, b: Timestamp) -> bool {
    a.secs < b.secs || (a.secs == b.secs && a.nanos < b.nanos)
}

impl Timestamp {
    /// Whether this instant lies strictly before `other`.
    pub fn before(&self, other: &Timestamp) -> (r: bool)
        ensures
            r == ts_before(*self, *other),
    {
        self.secs < other.secs || (self.secs == other.secs && self.nanos < other.nanos)
    }
}

/// Options for parsing a security.txt file.
#[derive(Clone, Copy, Debug, PartialEq, Eq, Structural)]
pub struct SecurityTxtOptions {
    /// The current date and time, which the "Expires" field is validated
    /// against.
    pub now: Timestamp,
    /// Whether the PGP frame requires CRLF line endings or also accepts a
    /// bare LF.
    pub strict: bool,
}

impl SecurityTxtOptions {
    /// Options that read the wall clock for `now`.
    pub fn new(strict: bool) -> (r: Self)
        ensures
            r.strict == strict,
    {
        let n = utc_now();
        Self { now: Timestamp { secs: n.0, nanos: n.1 }, strict }
    }
}

impl Default for SecurityTxtOptions {
    /// The wall clock, and strict line endings.
    fn default() -> (r: Self)
        ensures
            r.strict == true,
    {
        Self::new(true)
    }
}

} // verus!
