use vstd::prelude::*;

verus! {

/// Nanoseconds in one second.
pub const NANOS_PER_SEC: u32 = 1_000_000_000;

/// Bound on the seconds of an instant that is always renderable as text.
pub const MAX_RENDERABLE_SECS: i64 = 8_000_000_000_000;

/// How old a signature's timestamp may be and still be accepted, in seconds.
pub const FRESHNESS_WINDOW_SECS: i64 = 3600;

/// A UTC instant: whole seconds since the Unix epoch and the nanoseconds
/// within that second.
#[derive(Debug, Clone, Copy, PartialEq, Eq, Structural)]
pub struct Timestamp {
    pub secs: i64,
    pub nanos: u32,
}

impl Timestamp {
    /// The instant as a count of nanoseconds since the epoch.
    pub open spec fn total_nanos(self) -> int {
        self.secs * (NANOS_PER_SEC as int) + self.nanos
    }

    /// `self` lies strictly before `other`.
    pub open spec fn earlier(self, other: Timestamp) -> bool {
        self.total_nanos() < other.total_nanos()
    }

    pub fn new(secs: i64, nanos: u32) -> (r: Timestamp)
        ensures
            r.secs == secs,
            r.nanos == nanos,
    {
        Timestamp { secs, nanos }
    }

    /// Whether `self` lies strictly before `other`.
    pub fn is_before(&self, other: &Timestamp) -> (r: bool)
        ensures
            r == self.earlier(*other),
    {
        let a: i128 = self.secs as i128 * 1_000_000_000i128 + self.nanos as i128;
        let b: i128 = other.secs as i128 * 1_000_000_000i128 + other.nanos as i128;
        a < b
    }

    /// The instant lies within about 250,000 years of the epoch and its
    /// nanoseconds are below one second: every calendar renders it.
    pub open spec fn renderable(self) -> bool {
        &&& self.nanos < NANOS_PER_SEC
        &&& -MAX_RENDERABLE_SECS <= self.secs <= MAX_RENDERABLE_SECS
    }

    /// The instant `secs` seconds after `self`.
    pub open spec fn plus_secs(self, secs: int) -> Timestamp {
        Timestamp { secs: (self.secs + secs) as i64, nanos: self.nanos }
    }
}

/// A timestamp observed at `now` is still fresh: it is at most the freshness
/// window old (a timestamp in the future counts as fresh).
pub open spec fn is_fresh_spec(timestamp: Timestamp, now: Timestamp) -> bool {
    now.total_nanos() - timestamp.total_nanos() <= FRESHNESS_WINDOW_SECS * (NANOS_PER_SEC as int)
}

/// Whether `timestamp`, seen at `now`, is within the freshness window.
pub fn is_fresh(timestamp: &Timestamp, now: &Timestamp) -> (r: bool)
    ensures
        r == is_fresh_spec(*timestamp, *now),
{
    let d_secs: i128 = now.secs as i128 - timestamp.secs as i128;
    let d_nanos: i128 = now.nanos as i128 - timestamp.nanos as i128;
    assert(-0x1_0000_0000_0000_0000i128 <= d_secs <= 0x1_0000_0000_0000_0000i128);
    let age: i128 = d_secs * 1_000_000_000i128 + d_nanos;
    age <= FRESHNESS_WINDOW_SECS as i128 * 1_000_000_000i128
}

} // verus!
